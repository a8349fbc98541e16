//! What a provider of account data answers, and how requests to it are cut
//! to the size it accepts.
use crate::common::account::AccountData;
use crate::common::account_map::AccountMap;
use crate::common::key::AccountKey;
use vstd::arithmetic::div_mod::lemma_fundamental_div_mod_converse;
use vstd::prelude::*;

verus! {

/// The answer to a request, with the time at which it was received.
pub struct RpcResponse<T> {
    /// What was asked for.
    pub result: T,
    /// Unix time of the answer in nanoseconds.
    pub response_time: u64,
}

/// The time to record for an answer to a request that was sent at
/// `start_time` and answered at `end_time`, both in nanoseconds: halfway
/// between the two, on the view that the way there takes as long as the way
/// back. The nanoseconds of the next centuries fit in 64 bits; beyond that
/// the high bits are dropped.
pub fn response_time(start_time: u128, end_time: u128) -> (time: u64)
    requires
        start_time <= end_time,
    ensures
        time == (start_time + (end_time - start_time) / 2) % 0x1_0000_0000_0000_0000,
        start_time + (end_time - start_time) / 2 <= u64::MAX ==> start_time <= time <= end_time,
{
    let halfway: u128 = start_time + (end_time - start_time) / 2;
    let low: u128 = halfway % 0x1_0000_0000_0000_0000u128;
    low as u64
}

/// The number of requests that `len` keys take when one request holds at most
/// `limit` of them.
pub open spec fn chunk_count(len: nat, limit: nat) -> nat
    recommends
        limit > 0,
{
    ((len + limit - 1) / (limit as int)) as nat
}

/// The keys of request number `c`, counted from 0: the next `limit` keys, or
/// those that are left.
pub open spec fn chunk_of(keys: Seq<AccountKey>, limit: nat, c: int) -> Seq<AccountKey>
    recommends
        limit > 0,
{
    keys.subrange(
        c * limit,
        if (c + 1) * limit <= keys.len() {
            (c + 1) * limit
        } else {
            keys.len() as int
        },
    )
}

/// Cuts a list of keys into requests of at most `limit` keys each, in order:
/// every request but the last holds exactly `limit` keys, and none is empty.
pub fn chunk_keys(keys: &Vec<AccountKey>, limit: usize) -> (chunks: Vec<Vec<AccountKey>>)
    requires
        limit > 0,
    ensures
        chunks@.len() == chunk_count(keys@.len(), limit as nat),
        forall|c: int|
            0 <= c < chunks@.len() ==> (#[trigger] chunks@[c])@ == chunk_of(
                keys@,
                limit as nat,
                c,
            ),
{
    let len: usize = keys.len();
    let mut chunks: Vec<Vec<AccountKey>> = Vec::new();
    let mut start: usize = 0;
    assert(chunks@.len() * limit == 0) by (nonlinear_arith)
        requires
            chunks@.len() == 0,
    ;
    while start < len
        invariant
            len == keys@.len(),
            limit > 0,
            start <= len,
            start < len ==> start == chunks@.len() * limit,
            start == len ==> (chunks@.len() - 1) * limit < len <= chunks@.len() * limit
                || (len == 0 && chunks@.len() == 0),
            forall|c: int|
                0 <= c < chunks@.len() ==> (#[trigger] chunks@[c])@ == chunk_of(
                    keys@,
                    limit as nat,
                    c,
                ),
        decreases len - start,
    {
        let end: usize = if len - start > limit {
            start + limit
        } else {
            len
        };
        let ghost c = chunks@.len() as int;
        proof {
            assert((c + 1) * limit == c * limit + limit) by (nonlinear_arith);
            assert((c + 1 - 1) * limit == c * limit) by (nonlinear_arith);
        }
        let mut chunk: Vec<AccountKey> = Vec::new();
        let mut i: usize = start;
        while i < end
            invariant
                start <= i <= end <= len,
                len == keys@.len(),
                chunk@ == keys@.subrange(start as int, i as int),
            decreases end - i,
        {
            chunk.push(keys[i]);
            assert(chunk@ =~= keys@.subrange(start as int, i + 1));
            i += 1;
        }
        assert(chunk@ == chunk_of(keys@, limit as nat, c));
        chunks.push(chunk);
        start = end;
    }
    proof {
        let count = chunks@.len() as int;
        if len == 0 {
            lemma_fundamental_div_mod_converse(limit - 1, limit as int, 0, limit - 1);
        } else {
            assert((count - 1) * limit == count * limit - limit) by (nonlinear_arith);
            lemma_fundamental_div_mod_converse(
                len + limit - 1,
                limit as int,
                count,
                len + limit - 1 - count * limit,
            );
        }
    }
    chunks
}

/// The data of each account in a provider's answer, `None` where the provider
/// found no account.
pub open spec fn account_data<A: AccountData>(accounts: Seq<Option<A>>) -> Seq<Option<Seq<u8>>> {
    Seq::new(accounts.len(), |i: int| answer_data(accounts[i]))
}

/// The data of one entry of a provider's answer, `None` where the provider
/// found no account.
pub open spec fn answer_data<A: AccountData>(account: Option<A>) -> Option<Seq<u8>> {
    match account {
        Some(found) => Some(found.data()),
        None => None,
    }
}

/// The map after the first `n` accounts of an answer have been entered under
/// the keys that were asked for, each with the time of the answer. An account
/// that was not found enters nothing.
pub open spec fn merged(
    map: Map<AccountKey, (Seq<u8>, u64)>,
    keys: Seq<AccountKey>,
    accounts: Seq<Option<Seq<u8>>>,
    time: u64,
    n: nat,
) -> Map<AccountKey, (Seq<u8>, u64)>
    decreases n,
{
    if n == 0 {
        map
    } else {
        let before = merged(map, keys, accounts, time, (n - 1) as nat);
        match accounts[n - 1] {
            Some(data) => before.insert(keys[n - 1], (data, time)),
            None => before,
        }
    }
}

/// Enters a provider's answer to a request for the keys of `chunk` into the
/// map: the data of each account that was found, under the key at the same
/// position of the request, with the time of the answer.
pub fn merge_accounts<A: AccountData>(
    account_map: &mut AccountMap,
    chunk: &Vec<AccountKey>,
    response: &RpcResponse<Vec<Option<A>>>,
)
    requires
        old(account_map).wf(),
        response.result@.len() <= chunk@.len(),
    ensures
        final(account_map).wf(),
        final(account_map)@ == merged(
            old(account_map)@,
            chunk@,
            account_data(response.result@),
            response.response_time,
            response.result@.len(),
        ),
{
    let accounts_time: u64 = response.response_time;
    let ghost start = account_map@;
    let ghost data = account_data(response.result@);
    let mut i: usize = 0;
    while i < response.result.len()
        invariant
            i <= response.result@.len() <= chunk@.len(),
            account_map.wf(),
            data == account_data(response.result@),
            account_map@ == merged(start, chunk@, data, accounts_time, i as nat),
        decreases response.result@.len() - i,
    {
        match &response.result[i] {
            Some(account) => {
                let bytes: Vec<u8> = crate::common::state::slice_to_vec(account.bytes());
                account_map.insert(chunk[i], bytes, accounts_time);
            },
            None => {},
        }
        i += 1;
    }
}


/// Each request holds at least one key and at most `limit`, and request
/// number `c` holds the keys from position `c * limit` on.
pub proof fn lemma_chunk_bounds(keys: Seq<AccountKey>, limit: nat, c: int)
    requires
        limit > 0,
        0 <= c < chunk_count(keys.len(), limit),
    ensures
        0 < chunk_of(keys, limit, c).len() <= limit,
        c * limit + chunk_of(keys, limit, c).len() <= keys.len(),
        forall|i: int|
            0 <= i < chunk_of(keys, limit, c).len() ==> chunk_of(keys, limit, c)[i] == keys[c
                * limit + i],
        c == chunk_count(keys.len(), limit) - 1 ==> c * limit + chunk_of(keys, limit, c).len()
            == keys.len(),
{
    let count = chunk_count(keys.len(), limit) as int;
    let total = keys.len() + limit - 1;
    vstd::arithmetic::div_mod::lemma_fundamental_div_mod(total, limit as int);
    vstd::arithmetic::div_mod::lemma_mod_bound(total, limit as int);
    assert(limit * count <= total);
    assert(total < limit * count + limit);
    assert(limit * (c + 1) <= limit * count) by (nonlinear_arith)
        requires
            c + 1 <= count,
            limit > 0,
    ;
    assert(limit * (c + 1) == c * limit + limit) by (nonlinear_arith);
    assert(limit * count == count * limit) by (nonlinear_arith);
    assert(c * limit >= 0) by (nonlinear_arith)
        requires
            c >= 0,
            limit > 0,
    ;
    assert((c + 1) * limit == c * limit + limit) by (nonlinear_arith);
}

/// The map after the answers to the first `n` requests have been entered,
/// request by request.
pub open spec fn collected<A: AccountData>(
    chunks: Seq<Vec<AccountKey>>,
    responses: Seq<RpcResponse<Vec<Option<A>>>>,
    n: nat,
) -> Map<AccountKey, (Seq<u8>, u64)>
    decreases n,
{
    if n == 0 {
        Map::empty()
    } else {
        merged(
            collected(chunks, responses, (n - 1) as nat),
            chunks[n - 1]@,
            account_data(responses[n - 1].result@),
            responses[n - 1].response_time,
            responses[n - 1].result@.len(),
        )
    }
}

/// Gathers a provider's answers to the requests of `chunks`, one answer for
/// each request in the same order, into one map by key. Where a key was asked
/// for more than once, the last account found for it stays.
pub fn collect_accounts<A: AccountData>(
    chunks: &Vec<Vec<AccountKey>>,
    responses: &Vec<RpcResponse<Vec<Option<A>>>>,
) -> (account_map: AccountMap)
    requires
        responses@.len() == chunks@.len(),
        forall|c: int|
            0 <= c < chunks@.len() ==> (#[trigger] responses@[c]).result@.len()
                <= chunks@[c]@.len(),
    ensures
        account_map.wf(),
        account_map@ == collected(chunks@, responses@, chunks@.len()),
{
    let mut account_map = AccountMap::new();
    let mut c: usize = 0;
    while c < chunks.len()
        invariant
            c <= chunks@.len(),
            responses@.len() == chunks@.len(),
            forall|k: int|
                0 <= k < chunks@.len() ==> (#[trigger] responses@[k]).result@.len()
                    <= chunks@[k]@.len(),
            account_map.wf(),
            account_map@ == collected(chunks@, responses@, c as nat),
        decreases chunks@.len() - c,
    {
        merge_accounts(&mut account_map, &chunks[c], &responses[c]);
        c += 1;
    }
    account_map
}

} // verus!
