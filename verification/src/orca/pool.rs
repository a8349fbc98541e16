//! The accounts of one Orca whirlpool, cached and refreshed together.
use crate::common::account::AccountData;
use crate::common::account_map::AccountMap;
use crate::common::deserialize::AccountKind;
use crate::common::deserialize::DecodeFailure;
use crate::common::deserialize::Deserializable;
use crate::common::key::AccountKey;
use crate::common::key::key_views;
use crate::common::key::pubkey_from_sdk;
use crate::common::key::sdk_pubkey_bytes;
use crate::common::pool::Pool;
use crate::common::pool::answer_views;
use crate::common::pool::first_rejected;
use crate::common::pool::is_refresh_outcome;
use crate::common::pool::is_rejected;
use crate::common::pool::lemma_first_rejected_stays;
use crate::common::pool::member_keys;
use crate::common::pool::paired;
use crate::common::pool::refreshed;
use crate::common::pool::take_answers;
use crate::common::pool::timed;
use crate::common::rpc::RpcResponse;
use crate::common::rpc::account_data;
use crate::common::state::AccountSnapshot;
use crate::common::state::AccountState;
use crate::common::state::Decoded;
use crate::common::state::ManagedAccount;
use crate::common::state::decoding;
use crate::orca::deserialize::whirlpool_decoding;
use crate::orca::pda::get_oracle_address;
use crate::orca::pda::get_tick_array_addresses;
use crate::orca::pda::oracle_address;
use crate::orca::pda::tick_array_addresses;
use orca_whirlpools_client::Whirlpool;
use solana_sdk::account::Account;
use vstd::prelude::*;

verus! {

/// The cached accounts that make up one Orca whirlpool.
pub struct OrcaWhirlpool {
    /// The whirlpool account itself.
    pub whirlpool: ManagedAccount,
    /// The tick arrays that exist on chain, lowest start tick index first.
    pub tick_arrays: Vec<ManagedAccount>,
    /// The oracle account; only whirlpools with an adaptive fee have one.
    pub oracle: Option<ManagedAccount>,
    /// The mint of the first token.
    pub mint_a: ManagedAccount,
    /// The mint of the second token.
    pub mint_b: ManagedAccount,
}

impl OrcaWhirlpool {
    /// The number of accounts in the pool.
    pub open spec fn spec_member_count(&self) -> nat {
        (3 + self.tick_arrays@.len() + if self.oracle is Some {
            1nat
        } else {
            0nat
        }) as nat
    }

    /// The number of accounts in the pool.
    pub fn member_count(&self) -> (count: usize)
        requires
            self.wf(),
        ensures
            count == self.spec_member_count(),
    {
        let fixed: usize = if self.oracle.is_some() {
            4
        } else {
            3
        };
        self.tick_arrays.len() + fixed
    }

    /// The keys of all accounts of the pool, in the order of refresh: what to
    /// ask a provider for before a refresh.
    pub fn account_keys(&self) -> (keys: Vec<AccountKey>)
        requires
            self.wf(),
        ensures
            keys@.len() == self.members().len(),
            forall|m: int| 0 <= m < keys@.len() ==> #[trigger] keys@[m] == self.members()[m].pubkey,
    {
        let accounts = self.accounts();
        let mut keys: Vec<AccountKey> = Vec::new();
        let mut i: usize = 0;
        while i < accounts.len()
            invariant
                i <= accounts@.len(),
                accounts@.len() == self.members().len(),
                forall|m: int|
                    0 <= m < accounts@.len() ==> (#[trigger] accounts@[m])@ == self.members()[m],
                keys@.len() == i,
                forall|m: int| 0 <= m < i ==> #[trigger] keys@[m] == self.members()[m].pubkey,
            decreases accounts@.len() - i,
        {
            keys.push(*accounts[i].pubkey());
            i += 1;
        }
        keys
    }

    /// Stores `bytes`, received at `time`, in the member at `index` of the
    /// order of refresh. Bytes that do not decode leave the pool as it was.
    pub fn update_member(&mut self, index: usize, bytes: Vec<u8>, time: u64) -> (outcome: Result<
        (),
        DecodeFailure,
    >)
        requires
            old(self).wf(),
            index < old(self).spec_member_count(),
        ensures
            final(self).wf(),
            final(self).members() == old(self).members().update(
                index as int,
                old(self).members()[index as int].after_update(bytes@, time),
            ),
            match outcome {
                Ok(_) => old(self).members()[index as int].accepts(bytes@),
                Err(failure) => !old(self).members()[index as int].accepts(bytes@)
                    && failure.kind == old(self).members()[index as int].kind
                    && decoding(failure.kind, bytes@) == Err::<Decoded, Seq<char>>(
                    failure.reason@,
                ),
            },
    {
        let ghost before = self.members();
        let outcome = if index == 0 {
            self.whirlpool.update(bytes, time)
        } else if index == 1 {
            self.mint_a.update(bytes, time)
        } else if index == 2 {
            self.mint_b.update(bytes, time)
        } else if index - 3 < self.tick_arrays.len() {
            self.tick_arrays[index - 3].update(bytes, time)
        } else {
            match &mut self.oracle {
                Some(oracle) => oracle.update(bytes, time),
                None => Ok(()),
            }
        };
        proof {
            assert(self.members() =~= before.update(
                index as int,
                before[index as int].after_update(bytes@, time),
            ));
        }
        outcome
    }

    /// Stores answers in the members from number `start` on, in the order
    /// of refresh: the first answer in member number `start`, the next in
    /// the one after it. An answer of `None` leaves its member as it was. The
    /// refresh stops at the first member whose new bytes do not decode and
    /// reports that failure; the members before it keep their new bytes.
    pub fn store_answers(&mut self, start: usize, answers: Vec<Option<(Vec<u8>, u64)>>) -> (outcome:
        Result<(), DecodeFailure>)
        requires
            old(self).wf(),
        ensures
            final(self).wf(),
            final(self).members() == refreshed(
                old(self).members(),
                start as nat,
                answer_views(answers@),
            ),
            is_refresh_outcome(old(self).members(), start as nat, answer_views(answers@), outcome),
    {
        let mut accounts_data = answers;
        let ghost given = answer_views(accounts_data@);
        let ghost before = self.members();
        let count: usize = self.member_count();
        let pairs: usize = if start >= count {
            0
        } else if accounts_data.len() <= count - start {
            accounts_data.len()
        } else {
            count - start
        };
        let mut i: usize = 0;
        while i < pairs
            invariant
                self.wf(),
                i <= pairs,
                pairs == paired(before.len(), start as nat, given.len()),
                accounts_data@.len() == given.len(),
                given == answer_views(answers@),
                before == old(self).members(),
                forall|j: int|
                    i <= j < given.len() ==> #[trigger] answer_views(accounts_data@)[j] == given[j],
                self.members().len() == before.len(),
                first_rejected(before, start as nat, given, i as nat) == i,
                forall|m: int|
                    0 <= m < before.len() ==> #[trigger] self.members()[m] == if start <= m < start
                        + i && given[m - start] is Some {
                        before[m].after_update(given[m - start]->Some_0.0, given[m - start]->Some_0.1)
                    } else {
                        before[m]
                    },
            decreases pairs - i,
        {
            assert(answer_views(accounts_data@)[i as int] == given[i as int]);
            let ghost current = self.members();
            let ghost held = accounts_data@;
            let taken = accounts_data[i].take();
            proof {
                assert forall|j: int| i + 1 <= j < given.len() implies #[trigger] answer_views(
                    accounts_data@,
                )[j] == given[j] by {
                    assert(answer_views(held)[j] == given[j]);
                }
            }
            match taken {
                Some((bytes, update_time)) => {
                    assert(given[i as int] == Some((bytes@, update_time)));
                    assert(current[start + i] == before[start + i]);
                    match self.update_member(start + i, bytes, update_time) {
                        Ok(_) => {},
                        Err(failure) => {
                            proof {
                                assert(is_rejected(before, start as nat, given, i as int));
                                lemma_first_rejected_stays(
                                    before,
                                    start as nat,
                                    given,
                                    i as nat,
                                    pairs as nat,
                                );
                                assert(self.members() =~= refreshed(before, start as nat, given));
                            }
                            return Err(failure);
                        },
                    }
                },
                None => {},
            }
            i += 1;
        }
        proof {
            assert(self.members() =~= refreshed(before, start as nat, given));
        }
        Ok(())
    }

    /// Stores a provider's answer to a request for the accounts of the pool
    /// from member number `start` on, in the order of refresh: one entry for
    /// each key asked for, in the order of the request. An account that was
    /// not found keeps what it held. The refresh stops at the first account
    /// whose new bytes do not decode and reports that failure; the accounts
    /// before it keep their new bytes.
    pub fn refresh_from(&mut self, start: usize, response: RpcResponse<Vec<Option<Account>>>) -> (outcome:
        Result<(), DecodeFailure>)
        requires
            old(self).wf(),
        ensures
            final(self).wf(),
            final(self).members() == refreshed(
                old(self).members(),
                start as nat,
                timed(account_data(response.result@), response.response_time),
            ),
            is_refresh_outcome(
                old(self).members(),
                start as nat,
                timed(account_data(response.result@), response.response_time),
                outcome,
            ),
    {
        let update_time: u64 = response.response_time;
        let mut accounts_data: Vec<Option<Account>> = response.result;
        let ghost given = timed(account_data(accounts_data@), update_time);
        let mut answers: Vec<Option<(Vec<u8>, u64)>> = Vec::new();
        let mut i: usize = 0;
        while i < accounts_data.len()
            invariant
                i <= accounts_data@.len(),
                accounts_data@.len() == given.len(),
                answers@.len() == i,
                forall|j: int|
                    i <= j < given.len() ==> #[trigger] timed(
                        account_data(accounts_data@),
                        update_time,
                    )[j] == given[j],
                forall|j: int| 0 <= j < i ==> #[trigger] answer_views(answers@)[j] == given[j],
            decreases accounts_data@.len() - i,
        {
            assert(timed(account_data(accounts_data@), update_time)[i as int] == given[i as int]);
            let ghost held = accounts_data@;
            let ghost stored = answers@;
            let taken = accounts_data[i].take();
            let answer = match taken {
                Some(account_data) => Some((account_data.into_bytes(), update_time)),
                None => None,
            };
            answers.push(answer);
            proof {
                assert forall|j: int| i + 1 <= j < given.len() implies #[trigger] timed(
                    account_data(accounts_data@),
                    update_time,
                )[j] == given[j] by {
                    assert(timed(account_data(held), update_time)[j] == given[j]);
                }
                assert forall|j: int| 0 <= j < i + 1 implies #[trigger] answer_views(answers@)[j]
                    == given[j] by {
                    if j < i {
                        assert(answer_views(stored)[j] == given[j]);
                    }
                }
            }
            i += 1;
        }
        assert(answer_views(answers@) =~= given);
        self.store_answers(start, answers)
    }
}

impl Pool for OrcaWhirlpool {
    type AccountType = Account;

    open spec fn members(&self) -> Seq<AccountSnapshot> {
        Seq::new(
            self.spec_member_count(),
            |m: int|
                if m == 0 {
                    self.whirlpool@
                } else if m == 1 {
                    self.mint_a@
                } else if m == 2 {
                    self.mint_b@
                } else if m < 3 + self.tick_arrays@.len() {
                    self.tick_arrays@[m - 3]@
                } else {
                    self.oracle->Some_0@
                },
        )
    }

    open spec fn wf(&self) -> bool {
        &&& self.tick_arrays@.len() <= usize::MAX - 4
        &&& self.whirlpool.well_formed()
        &&& self.whirlpool@.kind == AccountKind::Whirlpool
        &&& self.mint_a.well_formed()
        &&& self.mint_a@.kind == AccountKind::Mint
        &&& self.mint_b.well_formed()
        &&& self.mint_b@.kind == AccountKind::Mint
        &&& forall|i: int|
            0 <= i < self.tick_arrays@.len() ==> (#[trigger] self.tick_arrays@[i]).well_formed()
                && self.tick_arrays@[i]@.kind == AccountKind::TickArray
        &&& self.oracle matches Some(oracle) ==> oracle.well_formed() && oracle@.kind
            == AccountKind::Oracle
    }

    fn pubkey(&self) -> (key: &AccountKey) {
        self.whirlpool.pubkey()
    }

    fn accounts(&self) -> (accounts: Vec<&ManagedAccount>) {
        let mut accounts: Vec<&ManagedAccount> = Vec::new();
        accounts.push(&self.whirlpool);
        accounts.push(&self.mint_a);
        accounts.push(&self.mint_b);
        let mut i: usize = 0;
        while i < self.tick_arrays.len()
            invariant
                self.wf(),
                i <= self.tick_arrays@.len(),
                accounts@.len() == 3 + i,
                forall|m: int|
                    0 <= m < accounts@.len() ==> (#[trigger] accounts@[m])@ == self.members()[m]
                        && accounts@[m].well_formed(),
            decreases self.tick_arrays@.len() - i,
        {
            accounts.push(&self.tick_arrays[i]);
            i += 1;
        }
        if let Some(oracle) = &self.oracle {
            accounts.push(oracle);
        }
        accounts
    }

    fn refresh(&mut self, response: RpcResponse<Vec<Option<Account>>>) -> (outcome: Result<
        (),
        DecodeFailure,
    >) {
        self.refresh_from(0, response)
    }

    fn refresh_by_key(&mut self, account_map: AccountMap) -> (outcome: Result<(), DecodeFailure>) {
        let keys = self.account_keys();
        assert(keys@ =~= member_keys(self.members()));
        let answers = take_answers(&keys, account_map);
        self.store_answers(0, answers)
    }
}


/// An account that was expected with a pool and could not be had: the
/// provider found none at its key, or what it found does not decode. For the
/// accounts that a whirlpool need not have, this is no error.
#[derive(Debug)]
pub struct FailedAccount {
    /// The key of the account.
    pub pubkey: AccountKey,
    /// The kind of account that was expected: `Oracle` or `TickArray`.
    pub account_type: String,
}

/// What a failed account says, as plain values.
pub ghost struct FailedSnapshot {
    pub pubkey: AccountKey,
    pub account_type: Seq<char>,
}

impl View for FailedAccount {
    type V = FailedSnapshot;

    open spec fn view(&self) -> FailedSnapshot {
        FailedSnapshot { pubkey: self.pubkey, account_type: self.account_type@ }
    }
}

/// The views of a list of failed accounts.
pub open spec fn failed_views(failures: Seq<FailedAccount>) -> Seq<FailedSnapshot> {
    Seq::new(failures.len(), |i: int| failures[i]@)
}

/// Why no pool could be made.
#[derive(Debug)]
pub enum PoolError {
    /// The bytes of the whirlpool account or of one of its mints do not
    /// decode.
    Decode { pubkey: AccountKey, failure: DecodeFailure },
    /// The provider found no account for the mint of the first token.
    MissingMintA { pubkey: AccountKey },
    /// The provider found no account for the mint of the second token.
    MissingMintB { pubkey: AccountKey },
    /// The whirlpool account gives a tick spacing of 0, for which there are
    /// no tick arrays to enumerate.
    InvalidTickSpacing,
}

/// The accounts to fetch for a whirlpool, as its own account names them.
pub struct FetchPlan {
    /// The mint of the first token; the pool cannot do without it.
    pub mint_a: AccountKey,
    /// The mint of the second token; the pool cannot do without it.
    pub mint_b: AccountKey,
    /// The oracle address, if one can be derived.
    pub oracle: Option<AccountKey>,
    /// The addresses of all tick arrays over the supported tick range.
    pub tick_arrays: Vec<AccountKey>,
}

impl FetchPlan {
    /// The keys to ask a provider for, in the order of the request: the two
    /// mints, the oracle if there is one, then the tick arrays.
    pub open spec fn keys(&self) -> Seq<AccountKey> {
        seq![self.mint_a, self.mint_b] + (match self.oracle {
            Some(oracle) => seq![oracle],
            None => Seq::empty(),
        }) + self.tick_arrays@
    }

    /// The keys to ask a provider for, in the order of the request.
    pub fn pubkeys_to_fetch(&self) -> (keys: Vec<AccountKey>)
        ensures
            keys@ == self.keys(),
    {
        let mut keys: Vec<AccountKey> = Vec::new();
        keys.push(self.mint_a);
        keys.push(self.mint_b);
        if let Some(oracle) = self.oracle {
            keys.push(oracle);
        }
        let ghost head = keys@;
        let mut i: usize = 0;
        while i < self.tick_arrays.len()
            invariant
                i <= self.tick_arrays@.len(),
                keys@ == head + self.tick_arrays@.subrange(0, i as int),
            decreases self.tick_arrays@.len() - i,
        {
            keys.push(self.tick_arrays[i]);
            assert(keys@ =~= head + self.tick_arrays@.subrange(0, i + 1));
            i += 1;
        }
        assert(self.tick_arrays@.subrange(0, self.tick_arrays@.len() as int) =~= self.tick_arrays@);
        assert(head =~= seq![self.mint_a, self.mint_b] + (match self.oracle {
            Some(oracle) => seq![oracle],
            None => Seq::empty(),
        }));
        keys
    }
}

/// Whether `outcome` is the plan that the bytes of the whirlpool account at
/// `pubkey` give.
///
/// Bytes that do not decode give that failure, and a tick spacing of 0 is
/// refused. Else the mints are those that the account names, the oracle is
/// the derived oracle address if there is one, and the tick arrays are the
/// derived addresses of the whole supported range, or none at all if one of
/// them cannot be derived.
pub open spec fn is_fetch_plan(
    pubkey: AccountKey,
    bytes: Seq<u8>,
    outcome: Result<FetchPlan, PoolError>,
) -> bool {
    match whirlpool_decoding(bytes) {
        Err(reason) => outcome matches Err(PoolError::Decode { pubkey: at, failure }) && at
            == pubkey && failure.kind == AccountKind::Whirlpool && failure.reason@ == reason,
        Ok(whirlpool) => if whirlpool.tick_spacing == 0 {
            outcome matches Err(PoolError::InvalidTickSpacing)
        } else {
            outcome matches Ok(plan) && plan.mint_a@ == sdk_pubkey_bytes(whirlpool.token_mint_a)
                && plan.mint_b@ == sdk_pubkey_bytes(whirlpool.token_mint_b) && (match oracle_address(
                pubkey@,
            ) {
                Some((key, _)) => plan.oracle matches Some(oracle) && oracle@ == key,
                None => plan.oracle is None,
            }) && key_views(plan.tick_arrays@) == (match tick_array_addresses(
                pubkey@,
                whirlpool.tick_spacing,
            ) {
                Ok(keys) => keys,
                Err(_) => Seq::<Seq<u8>>::empty(),
            })
        },
    }
}

/// What a pool holds at one moment.
pub ghost struct PoolSnapshot {
    pub whirlpool: AccountSnapshot,
    pub tick_arrays: Seq<AccountSnapshot>,
    pub oracle: Option<AccountSnapshot>,
    pub mint_a: AccountSnapshot,
    pub mint_b: AccountSnapshot,
}

impl View for OrcaWhirlpool {
    type V = PoolSnapshot;

    open spec fn view(&self) -> PoolSnapshot {
        PoolSnapshot {
            whirlpool: self.whirlpool@,
            tick_arrays: Seq::new(self.tick_arrays@.len(), |i: int| self.tick_arrays@[i]@),
            oracle: match self.oracle {
                Some(oracle) => Some(oracle@),
                None => None,
            },
            mint_a: self.mint_a@,
            mint_b: self.mint_b@,
        }
    }
}

/// A new account at version 1.
pub open spec fn fresh_account(pubkey: AccountKey, kind: AccountKind, bytes: Seq<u8>, time: u64) -> AccountSnapshot {
    AccountSnapshot { pubkey, kind, bytes, version: 1, last_update_time: time }
}

/// The account of `kind` at `pubkey` that the fetched accounts give: a new
/// account from the fetched data if there is data under the key and it
/// decodes, else none.
pub open spec fn fetched_account(
    map: Map<AccountKey, (Seq<u8>, u64)>,
    pubkey: AccountKey,
    kind: AccountKind,
) -> Option<AccountSnapshot> {
    if map.contains_key(pubkey) && decoding(kind, map[pubkey].0) is Ok {
        Some(fresh_account(pubkey, kind, map[pubkey].0, map[pubkey].1))
    } else {
        None
    }
}

/// The label of a failed oracle account.
pub open spec fn oracle_type() -> Seq<char> {
    "Oracle"@
}

/// The label of a failed tick array account.
pub open spec fn tick_array_type() -> Seq<char> {
    "TickArray"@
}

/// What becomes of the tick arrays of a plan.
pub ghost struct TickArrays {
    /// The tick arrays that were fetched and decode, in the order of the plan.
    pub accounts: Seq<AccountSnapshot>,
    /// The tick arrays that were not found or do not decode, in the order of
    /// the plan.
    pub failures: Seq<FailedSnapshot>,
    /// The fetched accounts that are left.
    pub rest: Map<AccountKey, (Seq<u8>, u64)>,
}

/// What becomes of the first `n` tick arrays of a plan, taken one after the
/// other. Each key is taken out of the fetched accounts, so a key that
/// occurs twice is found only the first time.
pub open spec fn tick_arrays_upto(
    keys: Seq<AccountKey>,
    map: Map<AccountKey, (Seq<u8>, u64)>,
    n: nat,
) -> TickArrays
    decreases n,
{
    if n == 0 {
        TickArrays { accounts: Seq::empty(), failures: Seq::empty(), rest: map }
    } else {
        let before = tick_arrays_upto(keys, map, (n - 1) as nat);
        let key = keys[n - 1];
        match fetched_account(before.rest, key, AccountKind::TickArray) {
            Some(account) => TickArrays {
                accounts: before.accounts.push(account),
                failures: before.failures,
                rest: before.rest.remove(key),
            },
            None => TickArrays {
                accounts: before.accounts,
                failures: before.failures.push(
                    FailedSnapshot { pubkey: key, account_type: tick_array_type() },
                ),
                rest: before.rest.remove(key),
            },
        }
    }
}

/// How making a pool ends.
pub ghost enum Construction {
    /// The pool was made; the accounts listed could not be had.
    Built { pool: PoolSnapshot, failures: Seq<FailedSnapshot> },
    /// The bytes of an account that the pool cannot do without do not decode.
    Undecodable { pubkey: AccountKey, kind: AccountKind, reason: Seq<char> },
    /// No account was fetched for the mint of the first token.
    MissingMintA { pubkey: AccountKey },
    /// No account was fetched for the mint of the second token.
    MissingMintB { pubkey: AccountKey },
}

/// The part of making a pool that follows the two mints: the oracle and the
/// tick arrays, none of which the pool needs.
pub open spec fn with_optional_accounts(
    whirlpool: AccountSnapshot,
    mint_a: AccountSnapshot,
    mint_b: AccountSnapshot,
    plan: FetchPlan,
    map: Map<AccountKey, (Seq<u8>, u64)>,
) -> Construction {
    let oracle = match plan.oracle {
        Some(key) => fetched_account(map, key, AccountKind::Oracle),
        None => None,
    };
    let oracle_failures = match plan.oracle {
        Some(key) => if oracle is None {
            seq![FailedSnapshot { pubkey: key, account_type: oracle_type() }]
        } else {
            Seq::empty()
        },
        None => Seq::empty(),
    };
    let after_oracle = match plan.oracle {
        Some(key) => map.remove(key),
        None => map,
    };
    let tick_arrays = tick_arrays_upto(plan.tick_arrays@, after_oracle, plan.tick_arrays@.len());
    Construction::Built {
        pool: PoolSnapshot { whirlpool, tick_arrays: tick_arrays.accounts, oracle, mint_a, mint_b },
        failures: oracle_failures + tick_arrays.failures,
    }
}

/// How making the pool at `pubkey` ends, given the bytes of the whirlpool
/// account with the time of their answer, the plan, and the accounts fetched
/// for the plan.
///
/// The whirlpool account and the two mints are needed: the pool is not made
/// if one of the mints was not fetched or one of the three does not decode.
/// The oracle and the tick arrays are not: one that was not fetched or does
/// not decode is listed as failed. Each account is taken out of the fetched
/// accounts, so a key that the plan names twice is found only the first time.
pub open spec fn construction(
    pubkey: AccountKey,
    bytes: Seq<u8>,
    time: u64,
    plan: FetchPlan,
    map: Map<AccountKey, (Seq<u8>, u64)>,
) -> Construction {
    if decoding(AccountKind::Whirlpool, bytes) is Err {
        Construction::Undecodable {
            pubkey,
            kind: AccountKind::Whirlpool,
            reason: decoding(AccountKind::Whirlpool, bytes)->Err_0,
        }
    } else if !map.contains_key(plan.mint_a) {
        Construction::MissingMintA { pubkey: plan.mint_a }
    } else if decoding(AccountKind::Mint, map[plan.mint_a].0) is Err {
        Construction::Undecodable {
            pubkey: plan.mint_a,
            kind: AccountKind::Mint,
            reason: decoding(AccountKind::Mint, map[plan.mint_a].0)->Err_0,
        }
    } else if !map.remove(plan.mint_a).contains_key(plan.mint_b) {
        Construction::MissingMintB { pubkey: plan.mint_b }
    } else if decoding(AccountKind::Mint, map[plan.mint_b].0) is Err {
        Construction::Undecodable {
            pubkey: plan.mint_b,
            kind: AccountKind::Mint,
            reason: decoding(AccountKind::Mint, map[plan.mint_b].0)->Err_0,
        }
    } else {
        with_optional_accounts(
            fresh_account(pubkey, AccountKind::Whirlpool, bytes, time),
            fresh_account(plan.mint_a, AccountKind::Mint, map[plan.mint_a].0, map[plan.mint_a].1),
            fresh_account(plan.mint_b, AccountKind::Mint, map[plan.mint_b].0, map[plan.mint_b].1),
            plan,
            map.remove(plan.mint_a).remove(plan.mint_b),
        )
    }
}

/// Whether `outcome` is what making a pool returns when it ends as
/// `expected`.
pub open spec fn is_construction(
    outcome: Result<(OrcaWhirlpool, Vec<FailedAccount>), PoolError>,
    expected: Construction,
) -> bool {
    match expected {
        Construction::Built { pool, failures } => outcome matches Ok((made, failed)) && made.wf()
            && made@ == pool && failed_views(failed@) == failures,
        Construction::Undecodable { pubkey, kind, reason } => outcome matches Err(
            PoolError::Decode { pubkey: at, failure },
        ) && at == pubkey && failure.kind == kind && failure.reason@ == reason,
        Construction::MissingMintA { pubkey } => outcome matches Err(
            PoolError::MissingMintA { pubkey: at },
        ) && at == pubkey,
        Construction::MissingMintB { pubkey } => outcome matches Err(
            PoolError::MissingMintB { pubkey: at },
        ) && at == pubkey,
    }
}


/// Takes the account of `kind` at `pubkey` out of the fetched accounts and
/// makes a cached account of it, if there is one and it decodes.
fn take_account(account_map: &mut AccountMap, pubkey: &AccountKey, kind: AccountKind) -> (taken:
    Option<ManagedAccount>)
    requires
        old(account_map).wf(),
    ensures
        final(account_map).wf(),
        final(account_map)@ == old(account_map)@.remove(*pubkey),
        match fetched_account(old(account_map)@, *pubkey, kind) {
            Some(account) => taken matches Some(made) && made.well_formed() && made@ == account,
            None => taken is None,
        },
{
    match account_map.remove(pubkey) {
        Some((data, time)) => match ManagedAccount::new_initialized_from_bytes(
            *pubkey,
            kind,
            data,
            time,
        ) {
            Ok(made) => Some(made),
            Err(_) => None,
        },
        None => None,
    }
}

impl OrcaWhirlpool {
    /// Reads from the bytes of the whirlpool account at `pubkey` which
    /// accounts belong to the whirlpool: the two mints that the account
    /// names, the oracle at its derived address, and the tick arrays at the
    /// derived addresses of the whole supported tick range.
    pub fn plan_fetch(pubkey: &AccountKey, whirlpool_bytes: &[u8]) -> (outcome: Result<
        FetchPlan,
        PoolError,
    >)
        ensures
            is_fetch_plan(*pubkey, whirlpool_bytes@, outcome),
            outcome matches Ok(plan) ==> plan.tick_arrays@.len() <= usize::MAX - 4,
    {
        let whirlpool_data = match <Whirlpool as Deserializable>::from_bytes(whirlpool_bytes) {
            Ok(value) => value,
            Err(failure) => {
                return Err(PoolError::Decode { pubkey: *pubkey, failure });
            },
        };
        if whirlpool_data.tick_spacing == 0 {
            return Err(PoolError::InvalidTickSpacing);
        }
        let mint_a = pubkey_from_sdk(&whirlpool_data.token_mint_a);
        let mint_b = pubkey_from_sdk(&whirlpool_data.token_mint_b);
        let oracle = match get_oracle_address(pubkey) {
            Ok((key, _)) => Some(key),
            Err(_) => None,
        };
        let tick_arrays = match get_tick_array_addresses(pubkey, &whirlpool_data.tick_spacing) {
            Ok(keys) => keys,
            Err(_) => Vec::new(),
        };
        proof {
            assert(key_views(Seq::<AccountKey>::empty()) =~= Seq::<Seq<u8>>::empty());
            crate::orca::pda::lemma_tick_array_count_bound(whirlpool_data.tick_spacing);
            if tick_array_addresses(pubkey@, whirlpool_data.tick_spacing) is Ok {
                crate::orca::pda::lemma_tick_array_addresses_elements(
                    pubkey@,
                    whirlpool_data.tick_spacing,
                    crate::orca::pda::tick_array_count(whirlpool_data.tick_spacing),
                );
            }
        }
        Ok(FetchPlan { mint_a, mint_b, oracle, tick_arrays })
    }

    /// Makes the pool at `pubkey` from a provider's answers: the answer to
    /// the request for the whirlpool account, and the accounts fetched for
    /// the keys of `plan`.
    ///
    /// The whirlpool account and the two mints must be there and decode. An
    /// oracle or a tick array that was not found, or that does not decode, is
    /// left out of the pool and listed in the second part of the result.
    pub fn new_initialized_from_rpc<A: AccountData>(
        pubkey: &AccountKey,
        whirlpool_response: &RpcResponse<A>,
        plan: &FetchPlan,
        account_map: AccountMap,
    ) -> (outcome: Result<(Self, Vec<FailedAccount>), PoolError>)
        requires
            account_map.wf(),
            plan.tick_arrays@.len() <= usize::MAX - 4,
        ensures
            is_construction(
                outcome,
                construction(
                    *pubkey,
                    whirlpool_response.result.data(),
                    whirlpool_response.response_time,
                    *plan,
                    account_map@,
                ),
            ),
    {
        let mut account_map = account_map;
        let ghost fetched = account_map@;
        let mut failures: Vec<FailedAccount> = Vec::new();

        let whirlpool = match ManagedAccount::new_initialized_from_rpc(
            *pubkey,
            AccountKind::Whirlpool,
            whirlpool_response,
        ) {
            Ok(made) => made,
            Err(failure) => {
                return Err(PoolError::Decode { pubkey: *pubkey, failure });
            },
        };

        let (mint_a_data, mint_a_time) = match account_map.remove(&plan.mint_a) {
            Some(found) => found,
            None => {
                return Err(PoolError::MissingMintA { pubkey: plan.mint_a });
            },
        };
        let mint_a = match ManagedAccount::new_initialized_from_bytes(
            plan.mint_a,
            AccountKind::Mint,
            mint_a_data,
            mint_a_time,
        ) {
            Ok(made) => made,
            Err(failure) => {
                return Err(PoolError::Decode { pubkey: plan.mint_a, failure });
            },
        };

        let (mint_b_data, mint_b_time) = match account_map.remove(&plan.mint_b) {
            Some(found) => found,
            None => {
                return Err(PoolError::MissingMintB { pubkey: plan.mint_b });
            },
        };
        let mint_b = match ManagedAccount::new_initialized_from_bytes(
            plan.mint_b,
            AccountKind::Mint,
            mint_b_data,
            mint_b_time,
        ) {
            Ok(made) => made,
            Err(failure) => {
                return Err(PoolError::Decode { pubkey: plan.mint_b, failure });
            },
        };

        let ghost after_mints = account_map@;
        let oracle = match plan.oracle {
            Some(opk) => {
                let taken = take_account(&mut account_map, &opk, AccountKind::Oracle);
                if taken.is_none() {
                    failures.push(FailedAccount { pubkey: opk, account_type: "Oracle".to_string() });
                }
                taken
            },
            None => None,
        };
        let ghost oracle_failures = failed_views(failures@);
        let ghost after_oracle = account_map@;
        proof {
            assert(after_mints == fetched.remove(plan.mint_a).remove(plan.mint_b));
            assert(mint_b@ == fresh_account(
                plan.mint_b,
                AccountKind::Mint,
                fetched[plan.mint_b].0,
                fetched[plan.mint_b].1,
            ));
            match plan.oracle {
                Some(key) => {
                    assert(after_oracle == after_mints.remove(key));
                    if fetched_account(after_mints, key, AccountKind::Oracle) is None {
                        assert(failures@.len() == 1);
                        assert(failures@[0]@.account_type == oracle_type());
                        assert(oracle_failures =~= seq![
                            FailedSnapshot { pubkey: key, account_type: oracle_type() },
                        ]);
                    } else {
                        assert(oracle_failures =~= Seq::<FailedSnapshot>::empty());
                    }
                },
                None => {
                    assert(oracle_failures =~= Seq::<FailedSnapshot>::empty());
                },
            }
        }

        let mut tick_arrays: Vec<ManagedAccount> = Vec::new();
        let mut i: usize = 0;
        while i < plan.tick_arrays.len()
            invariant
                i <= plan.tick_arrays@.len(),
                plan.tick_arrays@.len() <= usize::MAX - 4,
                account_map.wf(),
                tick_arrays@.len() <= i,
                forall|j: int|
                    0 <= j < tick_arrays@.len() ==> (#[trigger] tick_arrays@[j]).well_formed()
                        && tick_arrays@[j]@.kind == AccountKind::TickArray,
                Seq::new(tick_arrays@.len(), |j: int| tick_arrays@[j]@) == tick_arrays_upto(
                    plan.tick_arrays@,
                    after_oracle,
                    i as nat,
                ).accounts,
                failed_views(failures@) == oracle_failures + tick_arrays_upto(
                    plan.tick_arrays@,
                    after_oracle,
                    i as nat,
                ).failures,
                account_map@ == tick_arrays_upto(plan.tick_arrays@, after_oracle, i as nat).rest,
            decreases plan.tick_arrays@.len() - i,
        {
            let ta_pubkey = plan.tick_arrays[i];
            let ghost before = tick_arrays_upto(plan.tick_arrays@, after_oracle, i as nat);
            let ghost accounts_before = tick_arrays@;
            let ghost failures_before = failures@;
            match take_account(&mut account_map, &ta_pubkey, AccountKind::TickArray) {
                Some(made) => {
                    tick_arrays.push(made);
                    proof {
                        assert(Seq::new(tick_arrays@.len(), |j: int| tick_arrays@[j]@)
                            =~= before.accounts.push(made@));
                    }
                },
                None => {
                    failures.push(
                        FailedAccount { pubkey: ta_pubkey, account_type: "TickArray".to_string() },
                    );
                    proof {
                        assert(failed_views(failures@) =~= failed_views(failures_before).push(
                            FailedSnapshot { pubkey: ta_pubkey, account_type: tick_array_type() },
                        ));
                        assert(failed_views(failures@) =~= oracle_failures
                            + before.failures.push(
                            FailedSnapshot { pubkey: ta_pubkey, account_type: tick_array_type() },
                        ));
                    }
                },
            }
            i += 1;
        }

        let pool = OrcaWhirlpool { whirlpool, tick_arrays, oracle, mint_a, mint_b };
        proof {
            assert(pool@.tick_arrays =~= tick_arrays_upto(
                plan.tick_arrays@,
                after_oracle,
                plan.tick_arrays@.len(),
            ).accounts);
            assert(pool.wf());
            let expected = with_optional_accounts(
                whirlpool@,
                mint_a@,
                mint_b@,
                *plan,
                after_mints,
            );
            assert(expected is Built);
            assert(pool@.oracle == expected->Built_pool.oracle);
            assert(pool@ == expected->Built_pool);
            assert(failed_views(failures@) == expected->Built_failures);
            assert(construction(
                *pubkey,
                whirlpool_response.result.data(),
                whirlpool_response.response_time,
                *plan,
                fetched,
            ) == expected);
        }
        Ok((pool, failures))
    }
}

} // verus!
