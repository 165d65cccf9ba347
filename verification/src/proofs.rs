//! Facts about the model that the contract's proofs rest on.

use crate::model::{
    commission, elapsed_seconds, emission, newly_earned, staked_sum, AccountState, Entry, State,
    ONE_TOKEN, REWARD_PER_SECOND,
};
use vstd::prelude::*;

verus! {

/// One more account adds its balance to the sum.
pub proof fn lemma_staked_sum_push(entries: Seq<Entry>, entry: Entry)
    ensures
        staked_sum(entries.push(entry)) == staked_sum(entries) + entry.state.balance,
{
    assert(entries.push(entry).drop_last() =~= entries);
}

/// Replacing an account's entry replaces its balance in the sum.
pub proof fn lemma_staked_sum_update(entries: Seq<Entry>, i: int, entry: Entry)
    requires
        0 <= i < entries.len(),
    ensures
        staked_sum(entries.update(i, entry)) == staked_sum(entries) - entries[i].state.balance
            + entry.state.balance,
    decreases entries.len(),
{
    let updated = entries.update(i, entry);
    if i == entries.len() - 1 {
        assert(updated.drop_last() =~= entries.drop_last());
    } else {
        assert(updated.drop_last() =~= entries.drop_last().update(i, entry));
        lemma_staked_sum_update(entries.drop_last(), i, entry);
    }
}

/// No balance is negative, so the sum is not, and no balance exceeds it.
pub proof fn lemma_staked_sum_bounds(entries: Seq<Entry>, i: int)
    requires
        0 <= i < entries.len(),
    ensures
        0 <= entries[i].state.balance <= staked_sum(entries),
    decreases entries.len(),
{
    lemma_staked_sum_nonnegative(entries.drop_last());
    if i < entries.len() - 1 {
        lemma_staked_sum_bounds(entries.drop_last(), i);
    }
}

/// The sum of balances is not negative.
pub proof fn lemma_staked_sum_nonnegative(entries: Seq<Entry>)
    ensures
        0 <= staked_sum(entries),
    decreases entries.len(),
{
    if entries.len() > 0 {
        lemma_staked_sum_nonnegative(entries.drop_last());
    }
}

/// The first accounts of a list have staked no more than all of them.
pub proof fn lemma_staked_sum_prefix(entries: Seq<Entry>, k: int)
    requires
        0 <= k <= entries.len(),
    ensures
        0 <= staked_sum(entries.subrange(0, k)) <= staked_sum(entries),
    decreases entries.len(),
{
    lemma_staked_sum_nonnegative(entries.subrange(0, k));
    if k == entries.len() {
        assert(entries.subrange(0, k) =~= entries);
    } else {
        assert(entries.drop_last().subrange(0, k) =~= entries.subrange(0, k));
        lemma_staked_sum_prefix(entries.drop_last(), k);
    }
}

/// Where no account has two entries, an account is found at its own place.
pub proof fn lemma_index_of(s: State, i: int)
    requires
        s.distinct(),
        0 <= i < s.entries.len(),
    ensures
        s.knows(s.entries[i].account_id),
        s.index_of(s.entries[i].account_id) == i,
        s.account(s.entries[i].account_id) == s.entries[i].state,
{
}

/// What `with_account` does: the account holds the new state, every other
/// account holds what it held, and the sum of balances moves by the change
/// in this account's balance.
pub proof fn lemma_with_account(s: State, id: Seq<char>, state: AccountState)
    requires
        s.distinct(),
    ensures
        s.with_account(id, state).distinct(),
        s.with_account(id, state).knows(id),
        s.with_account(id, state).account(id) == state,
        forall|other: Seq<char>|
            other != id ==> (#[trigger] s.with_account(id, state).account(other)) == s.account(
                other,
            ),
        forall|other: Seq<char>|
            other != id ==> (#[trigger] s.with_account(id, state).knows(other)) == s.knows(other),
        staked_sum(s.with_account(id, state).entries) == staked_sum(s.entries) - s.account(
            id,
        ).balance + state.balance,
{
    let t = s.with_account(id, state);
    let entry = Entry { account_id: id, state };
    // The place of the account in the new state.
    let k = if s.knows(id) {
        lemma_staked_sum_update(s.entries, s.index_of(id), entry);
        s.index_of(id)
    } else {
        lemma_staked_sum_push(s.entries, entry);
        s.entries.len() as int
    };
    lemma_index_of(t, k);
    assert forall|other: Seq<char>| other != id implies (#[trigger] t.knows(other)) == s.knows(
        other,
    ) && t.account(other) == s.account(other) by {
        if s.knows(other) {
            lemma_index_of(t, s.index_of(other));
        }
        if t.knows(other) {
            lemma_index_of(s, t.index_of(other));
        }
    }
}

/// Two states with the same entries hold the same for every account.
pub proof fn lemma_same_entries(s: State, t: State, id: Seq<char>)
    requires
        s.distinct(),
        s.entries == t.entries,
    ensures
        t.distinct(),
        t.knows(id) == s.knows(id),
        t.account(id) == s.account(id),
{
    if s.knows(id) {
        let i = s.index_of(id);
        lemma_index_of(s, i);
        lemma_index_of(t, i);
    }
}

/// In a well-formed state no account was settled beyond the stored
/// accumulator, and no account has staked more than the total.
pub proof fn lemma_account_bounds(s: State, id: Seq<char>)
    requires
        s.wf(),
    ensures
        s.account(id).reward_per_token_paid <= s.reward_per_token_stored,
        s.account(id).balance <= s.total_supply,
{
    if s.knows(id) {
        let i = s.index_of(id);
        lemma_staked_sum_bounds(s.entries, i);
    }
}

/// Giving an account a new state keeps the invariant, where the total moves
/// with the account's balance and the account is not settled beyond the
/// stored accumulator.
pub proof fn lemma_with_account_wf(s: State, id: Seq<char>, state: AccountState, total: u128)
    requires
        s.wf(),
        state.reward_per_token_paid <= s.reward_per_token_stored,
        total == s.total_supply - s.account(id).balance + state.balance,
    ensures
        (State { total_supply: total, ..s }).with_account(id, state).wf(),
{
    let m = State { total_supply: total, ..s };
    lemma_same_entries(s, m, id);
    lemma_with_account(m, id, state);
}

/// Raising the stored accumulator keeps the invariant.
pub proof fn lemma_accumulator_wf(s: State, per_token: u128, now: u64)
    requires
        s.wf(),
        s.reward_per_token_stored <= per_token,
    ensures
        (State { reward_per_token_stored: per_token, last_update_time: now, ..s }).wf(),
{
}

/// The emission of a number of seconds is not negative, and neither is its
/// share per staked token.
pub proof fn lemma_emission_nonnegative(seconds: int, total: int)
    requires
        0 <= seconds,
        0 < total,
    ensures
        0 <= emission(seconds),
        0 <= emission(seconds) / total,
{
    assert(0 <= seconds * REWARD_PER_SECOND * ONE_TOKEN) by (nonlinear_arith)
        requires
            0 <= seconds,
    ;
    vstd::arithmetic::div_mod::lemma_div_pos_is_pos(emission(seconds), total);
}

/// What a staked balance earns is made of two parts, neither negative: what
/// the balance earns by itself, and the bonus on that.
pub proof fn lemma_earned_parts(balance: u128, paid: u128, bonus_pct: u8, per_token: u128)
    requires
        paid <= per_token,
    ensures
        ({
            let base = balance * (per_token - paid) / (ONE_TOKEN as int);
            &&& 0 <= base
            &&& 0 <= (base / 100) * bonus_pct
            &&& newly_earned(balance, paid, bonus_pct, per_token) == base + (base / 100) * bonus_pct
        }),
{
    let base = balance * (per_token - paid) / (ONE_TOKEN as int);
    assert(0 <= balance * (per_token - paid)) by (nonlinear_arith)
        requires
            0 <= balance,
            0 <= per_token - paid,
    ;
    vstd::arithmetic::div_mod::lemma_div_pos_is_pos(balance * (per_token - paid), ONE_TOKEN as int);
    assert(0 <= (base / 100) * bonus_pct) by (nonlinear_arith)
        requires
            0 <= base,
            0 <= bonus_pct,
    ;
}

/// A staked balance earns nothing while the accumulator stands where the
/// account was settled.
pub proof fn lemma_nothing_earned_without_progress(balance: u128, paid: u128, bonus_pct: u8)
    ensures
        newly_earned(balance, paid, bonus_pct, paid) == 0,
{
    assert(balance * (paid - paid) == 0) by (nonlinear_arith);
    assert((0int / 100) * bonus_pct == 0) by (nonlinear_arith);
}

/// Settlement keeps the invariant. It changes neither the total nor any
/// balance, bonus or reserve, and it leaves every other account as it was.
pub proof fn lemma_update_reward_wf(s: State, id: Seq<char>, now: u64)
    requires
        s.wf(),
        s.update_reward(id, now) is Ok,
    ensures
        s.update_reward(id, now)->Ok_0.wf(),
        s.update_reward(id, now)->Ok_0.total_supply == s.total_supply,
        s.update_reward(id, now)->Ok_0.reward_per_token_stored == s.reward_per_token(now)->Ok_0,
        s.update_reward(id, now)->Ok_0.last_update_time == now,
        s.update_reward(id, now)->Ok_0.account(id) == (AccountState {
            reward: s.earned(id, now)->Ok_0,
            reward_per_token_paid: s.reward_per_token(now)->Ok_0,
            ..s.account(id)
        }),
        forall|other: Seq<char>|
            other != id ==> (#[trigger] s.update_reward(id, now)->Ok_0.account(other)) == s.account(
                other,
            ),
{
    let per_token = s.reward_per_token(now)->Ok_0;
    let earned = s.earned(id, now)->Ok_0;
    if s.total_supply > 0 {
        lemma_emission_nonnegative(
            elapsed_seconds(s.last_update_time, now),
            s.total_supply as int,
        );
    }
    let m = State { reward_per_token_stored: per_token, last_update_time: now, ..s };
    lemma_accumulator_wf(s, per_token, now);
    lemma_same_entries(s, m, id);
    let state = AccountState { reward: earned, reward_per_token_paid: per_token, ..s.account(id) };
    lemma_with_account_wf(m, id, state, m.total_supply);
    lemma_with_account(m, id, state);
    assert forall|other: Seq<char>| other != id implies (#[trigger] s.update_reward(
        id,
        now,
    )->Ok_0.account(other)) == s.account(other) by {
        lemma_same_entries(s, m, other);
    }
}

/// The commission is at most the amount it is taken from.
pub proof fn lemma_commission_bounds(amount: u128)
    ensures
        0 <= commission(amount) <= amount,
{
}

} // verus!
