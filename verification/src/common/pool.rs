//! A group of cached accounts that is refreshed together.
use crate::common::account::AccountData;
use crate::common::account_map::AccountMap;
use crate::common::deserialize::DecodeFailure;
use crate::common::key::AccountKey;
use crate::common::rpc::account_data;
use crate::common::rpc::RpcResponse;
use crate::common::state::decoding;
use crate::common::state::AccountSnapshot;
use crate::common::state::Decoded;
use crate::common::state::ManagedAccount;
use vstd::prelude::*;

verus! {

/// The answers of one response, each with the time of the response.
pub open spec fn timed(answers: Seq<Option<Seq<u8>>>, time: u64) -> Seq<Option<(Seq<u8>, u64)>> {
    Seq::new(
        answers.len(),
        |i: int|
            match answers[i] {
                Some(bytes) => Some((bytes, time)),
                None => None,
            },
    )
}

/// The answers that a map of fetched accounts gives for a list of keys: for
/// each key what the map holds for it, and nothing for a key that the map
/// does not hold or that stands earlier in the list.
pub open spec fn answers_by_key(
    keys: Seq<AccountKey>,
    map: Map<AccountKey, (Seq<u8>, u64)>,
) -> Seq<Option<(Seq<u8>, u64)>> {
    Seq::new(
        keys.len(),
        |i: int|
            if map.contains_key(keys[i]) && forall|j: int| 0 <= j < i ==> keys[j] != keys[i] {
                Some(map[keys[i]])
            } else {
                None
            },
    )
}

/// The answers that a list of owned answers holds.
pub open spec fn answer_views(answers: Seq<Option<(Vec<u8>, u64)>>) -> Seq<Option<(Seq<u8>, u64)>> {
    Seq::new(
        answers.len(),
        |i: int|
            match answers[i] {
                Some((bytes, time)) => Some((bytes@, time)),
                None => None,
            },
    )
}

/// How many answers are paired with members when the first answer goes to
/// member number `start`: one answer for each member from there on, as far as
/// both last.
pub open spec fn paired(members: nat, start: nat, answers: nat) -> nat {
    if start >= members {
        0
    } else if answers <= members - start {
        answers
    } else {
        (members - start) as nat
    }
}

/// Whether answer number `i` holds bytes that its member cannot take: bytes
/// that do not decode as the member's kind.
pub open spec fn is_rejected(
    members: Seq<AccountSnapshot>,
    start: nat,
    answers: Seq<Option<(Seq<u8>, u64)>>,
    i: int,
) -> bool {
    answers[i] matches Some((bytes, _)) && !members[start + i].accepts(bytes)
}

/// The number of the first answer among the first `n` that its member cannot
/// take, or `n` if there is none.
pub open spec fn first_rejected(
    members: Seq<AccountSnapshot>,
    start: nat,
    answers: Seq<Option<(Seq<u8>, u64)>>,
    n: nat,
) -> nat
    decreases n,
{
    if n == 0 {
        0
    } else {
        let before = first_rejected(members, start, answers, (n - 1) as nat);
        if before < n - 1 {
            before
        } else if is_rejected(members, start, answers, n - 1) {
            (n - 1) as nat
        } else {
            n
        }
    }
}

/// The number of the answer at which a refresh stops: the first that its
/// member cannot take, or the number of pairs if every member takes its
/// answer.
pub open spec fn refresh_stop(
    members: Seq<AccountSnapshot>,
    start: nat,
    answers: Seq<Option<(Seq<u8>, u64)>>,
) -> nat {
    first_rejected(members, start, answers, paired(members.len(), start, answers.len()))
}

/// The members after a refresh. Answers are paired with members by position,
/// the first answer with member number `start`. A member whose account was
/// found, and whose answer comes before the one at which the refresh stops,
/// holds the new bytes with the time of the answer; every other member is as
/// it was.
pub open spec fn refreshed(
    members: Seq<AccountSnapshot>,
    start: nat,
    answers: Seq<Option<(Seq<u8>, u64)>>,
) -> Seq<AccountSnapshot> {
    Seq::new(
        members.len(),
        |m: int|
            if start <= m < start + refresh_stop(members, start, answers) && answers[m
                - start] is Some {
                members[m].after_update(answers[m - start]->Some_0.0, answers[m - start]->Some_0.1)
            } else {
                members[m]
            },
    )
}

/// Whether `outcome` is what a refresh reports: success if every member took
/// its answer, else the failure to decode the first answer that was refused.
pub open spec fn is_refresh_outcome(
    members: Seq<AccountSnapshot>,
    start: nat,
    answers: Seq<Option<(Seq<u8>, u64)>>,
    outcome: Result<(), DecodeFailure>,
) -> bool {
    let stop = refresh_stop(members, start, answers);
    match outcome {
        Ok(_) => stop == paired(members.len(), start, answers.len()),
        Err(failure) => stop < paired(members.len(), start, answers.len()) && failure.kind
            == members[(start + stop) as int].kind && answers[stop as int] is Some && decoding(
            failure.kind,
            answers[stop as int]->Some_0.0,
        ) == Err::<Decoded, Seq<char>>(failure.reason@),
    }
}

/// Once an answer is refused, it is where the refresh stops however many
/// answers follow.
pub proof fn lemma_first_rejected_stays(
    members: Seq<AccountSnapshot>,
    start: nat,
    answers: Seq<Option<(Seq<u8>, u64)>>,
    i: nat,
    n: nat,
)
    requires
        i < n,
        first_rejected(members, start, answers, i) == i,
        is_rejected(members, start, answers, i as int),
    ensures
        first_rejected(members, start, answers, n) == i,
    decreases n,
{
    if i + 1 < n {
        lemma_first_rejected_stays(members, start, answers, i, (n - 1) as nat);
    }
}

/// No answer before the one at which a refresh stops is refused, and the one
/// at which it stops, if it is not past the last, is.
pub proof fn lemma_first_rejected_is_first(
    members: Seq<AccountSnapshot>,
    start: nat,
    answers: Seq<Option<(Seq<u8>, u64)>>,
    n: nat,
)
    ensures
        first_rejected(members, start, answers, n) <= n,
        forall|i: int|
            0 <= i < first_rejected(members, start, answers, n) ==> !is_rejected(
                members,
                start,
                answers,
                i,
            ),
        first_rejected(members, start, answers, n) < n ==> is_rejected(
            members,
            start,
            answers,
            first_rejected(members, start, answers, n) as int,
        ),
    decreases n,
{
    if n > 0 {
        lemma_first_rejected_is_first(members, start, answers, (n - 1) as nat);
    }
}

/// A refresh changes neither which accounts belong to a pool nor their
/// order: every member keeps its key and its kind.
pub proof fn lemma_refresh_keeps_membership(
    members: Seq<AccountSnapshot>,
    start: nat,
    answers: Seq<Option<(Seq<u8>, u64)>>,
)
    ensures
        refreshed(members, start, answers).len() == members.len(),
        forall|m: int|
            0 <= m < members.len() ==> (#[trigger] refreshed(members, start, answers)[m]).pubkey
                == members[m].pubkey && refreshed(members, start, answers)[m].kind
                == members[m].kind,
{
}

/// A member whose account was not found is after the refresh as it was
/// before, and so is every member from the one on whose bytes were refused.
/// A refresh in which no bytes are refused succeeds.
pub proof fn lemma_refresh_leaves_stale(
    members: Seq<AccountSnapshot>,
    start: nat,
    answers: Seq<Option<(Seq<u8>, u64)>>,
    m: int,
)
    requires
        0 <= m < members.len(),
    ensures
        (m < start || m - start >= answers.len() || answers[m - start] is None) ==> refreshed(
            members,
            start,
            answers,
        )[m] == members[m],
        m >= start + refresh_stop(members, start, answers) ==> refreshed(
            members,
            start,
            answers,
        )[m] == members[m],
        (forall|i: int|
            0 <= i < paired(members.len(), start, answers.len()) ==> !is_rejected(
                members,
                start,
                answers,
                i,
            )) ==> is_refresh_outcome(members, start, answers, Ok(())),
{
    let n = paired(members.len(), start, answers.len());
    lemma_first_rejected_is_first(members, start, answers, n);
}

/// A member whose bytes were found and come before the answer at which the
/// refresh stops holds the new bytes, with their time, at the next version.
pub proof fn lemma_refresh_applies(
    members: Seq<AccountSnapshot>,
    start: nat,
    answers: Seq<Option<(Seq<u8>, u64)>>,
    i: int,
)
    requires
        0 <= i < refresh_stop(members, start, answers),
        answers[i] is Some,
    ensures
        start + i < members.len(),
        refreshed(members, start, answers)[start + i].bytes == answers[i]->Some_0.0,
        refreshed(members, start, answers)[start + i].last_update_time == answers[i]->Some_0.1,
        members[start + i].version < u64::MAX ==> refreshed(members, start, answers)[start
            + i].version == members[start + i].version + 1,
{
    let n = paired(members.len(), start, answers.len());
    lemma_first_rejected_is_first(members, start, answers, n);
    assert(!is_rejected(members, start, answers, i));
}

/// Takes out of a map of fetched accounts what it holds for each key of a
/// list, in the order of the list. The data is moved, not copied, so a key
/// that stands twice in the list gets its account only the first time.
pub fn take_answers(keys: &Vec<AccountKey>, account_map: AccountMap) -> (answers: Vec<
    Option<(Vec<u8>, u64)>,
>)
    requires
        account_map.wf(),
    ensures
        answer_views(answers@) == answers_by_key(keys@, account_map@),
{
    let mut account_map = account_map;
    let ghost fetched = account_map@;
    let mut answers: Vec<Option<(Vec<u8>, u64)>> = Vec::new();
    let mut i: usize = 0;
    while i < keys.len()
        invariant
            i <= keys@.len(),
            account_map.wf(),
            answers@.len() == i,
            forall|key: AccountKey|
                #![trigger account_map@.contains_key(key)]
                #![trigger fetched.contains_key(key)]
                account_map@.contains_key(key) == (fetched.contains_key(key) && forall|j: int|
                    0 <= j < i ==> keys@[j] != key),
            forall|key: AccountKey|
                account_map@.contains_key(key) ==> #[trigger] account_map@[key] == fetched[key],
            forall|k: int|
                0 <= k < i ==> #[trigger] answer_views(answers@)[k] == answers_by_key(
                    keys@,
                    fetched,
                )[k],
        decreases keys@.len() - i,
    {
        let ghost before = answers@;
        let ghost held = account_map@;
        let taken = account_map.remove(&keys[i]);
        answers.push(taken);
        proof {
            assert forall|k: int| 0 <= k < i + 1 implies #[trigger] answer_views(answers@)[k]
                == answers_by_key(keys@, fetched)[k] by {
                if k < i {
                    assert(answer_views(before)[k] == answers_by_key(keys@, fetched)[k]);
                } else {
                    assert(held.contains_key(keys@[k]) == (fetched.contains_key(keys@[k])
                        && forall|j: int| 0 <= j < i ==> keys@[j] != keys@[k]));
                }
            }
            assert forall|key: AccountKey|
                #![trigger account_map@.contains_key(key)]
                #![trigger fetched.contains_key(key)]
                account_map@.contains_key(key) == (fetched.contains_key(key) && forall|j: int|
                    0 <= j < i + 1 ==> keys@[j] != key) by {
                assert(held.contains_key(key) == (fetched.contains_key(key) && forall|j: int|
                    0 <= j < i ==> keys@[j] != key));
            }
        }
        i += 1;
    }
    assert(answer_views(answers@) =~= answers_by_key(keys@, fetched));
    answers
}

/// A named group of cached accounts that stands for one exchange instance: a
/// primary account and the accounts that depend on it. Which accounts belong
/// to the pool is fixed when the pool is made.
pub trait Pool: Sized {
    /// The type of account that a provider returns during a refresh.
    type AccountType: AccountData;

    /// What the members hold, in the order in which they are refreshed. The
    /// primary account comes first.
    spec fn members(&self) -> Seq<AccountSnapshot>;

    /// Whether every member is well formed and of the kind that its place in
    /// the pool asks for.
    spec fn wf(&self) -> bool;

    /// The key of the pool: that of its primary account.
    fn pubkey(&self) -> (key: &AccountKey)
        requires
            self.wf(),
        ensures
            self.members().len() > 0,
            *key == self.members()[0].pubkey,
    ;

    /// All accounts of the pool, in the order in which they are refreshed.
    fn accounts(&self) -> (accounts: Vec<&ManagedAccount>)
        requires
            self.wf(),
        ensures
            accounts@.len() == self.members().len(),
            forall|i: int|
                0 <= i < accounts@.len() ==> (#[trigger] accounts@[i])@ == self.members()[i]
                    && accounts@[i].well_formed(),
    ;

    /// Stores a provider's answer to one request for all accounts of the
    /// pool. The answer holds one entry for each key asked for, in the order
    /// of `accounts`; a provider that answers in another order must not be
    /// used here. An account that was not found keeps what it held. The
    /// refresh stops at the first account whose new bytes do not decode and
    /// reports that failure; the accounts before it keep their new bytes.
    fn refresh(&mut self, response: RpcResponse<Vec<Option<Self::AccountType>>>) -> (outcome: Result<
        (),
        DecodeFailure,
    >)
        requires
            old(self).wf(),
        ensures
            final(self).wf(),
            final(self).members() == refreshed(
                old(self).members(),
                0,
                timed(account_data(response.result@), response.response_time),
            ),
            is_refresh_outcome(
                old(self).members(),
                0,
                timed(account_data(response.result@), response.response_time),
                outcome,
            ),
    ;

    /// Stores the accounts that were fetched for the keys of the pool, each
    /// in the member of its key, whatever order the provider answered in. An
    /// account that was not fetched keeps what it held. The members are
    /// taken in the order of `accounts`; the refresh stops at the first whose
    /// new bytes do not decode and reports that failure, and the accounts
    /// before it keep their new bytes.
    fn refresh_by_key(&mut self, account_map: AccountMap) -> (outcome: Result<(), DecodeFailure>)
        requires
            old(self).wf(),
            account_map.wf(),
        ensures
            final(self).wf(),
            final(self).members() == refreshed(
                old(self).members(),
                0,
                answers_by_key(member_keys(old(self).members()), account_map@),
            ),
            is_refresh_outcome(
                old(self).members(),
                0,
                answers_by_key(member_keys(old(self).members()), account_map@),
                outcome,
            ),
    ;
}

/// The keys of a list of members.
pub open spec fn member_keys(members: Seq<AccountSnapshot>) -> Seq<AccountKey> {
    Seq::new(members.len(), |m: int| members[m].pubkey)
}

} // verus!
