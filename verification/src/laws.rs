//! What holds of the contract over time.
//!
//! The operations of the contract are functions on [`State`], and the
//! executable contract computes exactly those functions. The statements here
//! are about the functions, one call at a time or over any sequence of calls,
//! so they hold of every run of the contract.

use crate::error::Error;
use crate::model::{
    elapsed_seconds, emission, staked_sum, AccountState, EnvView, State, COMMISSION_DENOMINATOR,
    COMMISSION_NUMERATOR, ONE_TOKEN, REWARD_PER_SECOND,
};
use crate::proofs::{
    lemma_nothing_earned_without_progress,
    lemma_account_bounds, lemma_commission_bounds, lemma_emission_nonnegative,
    lemma_earned_parts, lemma_same_entries, lemma_update_reward_wf,
    lemma_with_account, lemma_with_account_wf,
};
use vstd::prelude::*;

verus! {

/// A call that can change the state of the contract. For a privileged
/// operation this is the call of the parent account: from anyone else it
/// fails, and a call that fails changes nothing.
pub enum Call {
    /// Settling an account.
    Settle { account: Seq<char> },
    /// Staking an amount for an account.
    Stake { account: Seq<char>, amount: u128 },
    /// Unstaking an amount for an account.
    Unstake { account: Seq<char>, amount: u128 },
    /// Withdrawing the reward of an account.
    WithdrawReward { account: Seq<char> },
    /// Setting or clearing the bonus of an account.
    SetBonus { account: Seq<char>, bonus_pct: u8 },
    /// Adding to the reserve of an account.
    TopUp { account: Seq<char>, amount: u128 },
    /// Burning from the reserve of an account, or transferring out of it.
    Spend { account: Seq<char>, amount: u128 },
    /// Emptying the reserve of an account.
    WithdrawReserve { account: Seq<char> },
}

/// A call and the time at which it is made.
pub struct TimedCall {
    pub call: Call,
    pub now: u64,
}

/// The state after a call at `now`. A call that fails leaves the state as it
/// was.
pub open spec fn step(s: State, call: Call, now: u64) -> State {
    match call {
        Call::Settle { account } => match s.update_reward(account, now) {
            Ok(t) => t,
            Err(_) => s,
        },
        Call::Stake { account, amount } => match s.internal_stake(account, amount, now) {
            Ok(t) => t,
            Err(_) => s,
        },
        Call::Unstake { account, amount } => match s.withdraw_stake(account, amount, now) {
            Ok((t, _)) => t,
            Err(_) => s,
        },
        Call::WithdrawReward { account } => match s.withdraw_reward(account, now) {
            Ok((t, _)) => t,
            Err(_) => s,
        },
        Call::SetBonus { account, bonus_pct } => match s.set_bonus(account, bonus_pct, now) {
            Ok(t) => t,
            Err(_) => s,
        },
        Call::TopUp { account, amount } => match s.add_zml_reserve(account, amount) {
            Ok(t) => t,
            Err(_) => s,
        },
        Call::Spend { account, amount } => match s.spend_reserve(account, amount) {
            Ok(t) => t,
            Err(_) => s,
        },
        Call::WithdrawReserve { account } => match s.withdraw_zml_reserve(account) {
            Ok((t, _)) => t,
            Err(_) => s,
        },
    }
}

/// The state after a sequence of calls.
pub open spec fn run(s: State, calls: Seq<TimedCall>) -> State
    decreases calls.len(),
{
    if calls.len() == 0 {
        s
    } else {
        run(step(s, calls[0].call, calls[0].now), calls.drop_first())
    }
}

/// The calls are in the order of their times, none before `from` and none
/// after `until`.
pub open spec fn in_order(calls: Seq<TimedCall>, from: u64, until: u64) -> bool {
    &&& from <= until
    &&& forall|i: int| 0 <= i < calls.len() ==> from <= (#[trigger] calls[i]).now <= until
    &&& forall|i: int, j: int|
        0 <= i < j < calls.len() ==> (#[trigger] calls[i]).now <= (#[trigger] calls[j]).now
}

/// Nothing is staked before the calls, nor after any of them.
pub open spec fn stays_empty(s: State, calls: Seq<TimedCall>) -> bool
    decreases calls.len(),
{
    &&& s.total_supply == 0
    &&& calls.len() > 0 ==> stays_empty(step(s, calls[0].call, calls[0].now), calls.drop_first())
}

/// In one state, the reward per token does not go down as time goes on.
pub proof fn lemma_reward_per_token_grows_with_time(s: State, earlier: u64, later: u64)
    requires
        earlier <= later,
    ensures
        s.reward_per_token_stored <= s.reward_per_token_at(earlier) <= s.reward_per_token_at(later),
{
    if s.total_supply > 0 {
        let total = s.total_supply as int;
        let a = elapsed_seconds(s.last_update_time, earlier);
        let b = elapsed_seconds(s.last_update_time, later);
        assert(0 <= a <= b) by {
            if earlier >= s.last_update_time {
                vstd::arithmetic::div_mod::lemma_div_is_ordered(
                    earlier - s.last_update_time,
                    later - s.last_update_time,
                    1_000_000_000,
                );
            }
        }
        assert(emission(a) <= emission(b)) by (nonlinear_arith)
            requires
                0 <= a <= b,
                emission(a) == a * REWARD_PER_SECOND * ONE_TOKEN,
                emission(b) == b * REWARD_PER_SECOND * ONE_TOKEN,
        ;
        lemma_emission_nonnegative(a, total);
        vstd::arithmetic::div_mod::lemma_div_is_ordered(emission(a), emission(b), total);
    }
}

/// A call keeps the invariant, and it does not take the accumulator back:
/// the stored value does not go down, and the reward per token at the time
/// of the call is after the call no less than it was before.
pub proof fn lemma_step_keeps_accumulator(s: State, call: Call, now: u64)
    requires
        s.wf(),
    ensures
        step(s, call, now).wf(),
        step(s, call, now).reward_per_token_stored >= s.reward_per_token_stored,
        step(s, call, now).reward_per_token_at(now) >= s.reward_per_token_at(now),
{
    let t = step(s, call, now);
    lemma_reward_per_token_grows_with_time(s, now, now);
    lemma_reward_per_token_grows_with_time(t, now, now);
    match call {
        Call::Settle { account } => {
            if s.update_reward(account, now) is Ok {
                lemma_update_reward_wf(s, account, now);
            }
        },
        Call::Stake { account, amount } => {
            if s.internal_stake(account, amount, now) is Ok {
                lemma_update_reward_wf(s, account, now);
                let m = s.update_reward(account, now)->Ok_0;
                lemma_account_bounds(m, account);
                lemma_with_account_wf(
                    m,
                    account,
                    AccountState {
                        balance: (m.account(account).balance + amount) as u128,
                        ..m.account(account)
                    },
                    (m.total_supply + amount) as u128,
                );
            }
        },
        Call::Unstake { account, amount } => {
            if s.withdraw_stake(account, amount, now) is Ok {
                lemma_update_reward_wf(s, account, now);
                let m = s.update_reward(account, now)->Ok_0;
                let taken = m.clamped(account, amount);
                lemma_account_bounds(m, account);
                lemma_with_account_wf(
                    m,
                    account,
                    AccountState {
                        balance: (m.account(account).balance - taken) as u128,
                        ..m.account(account)
                    },
                    (m.total_supply - taken) as u128,
                );
            }
        },
        Call::WithdrawReward { account } => {
            if s.withdraw_reward(account, now) is Ok {
                lemma_update_reward_wf(s, account, now);
                let m = s.update_reward(account, now)->Ok_0;
                lemma_account_bounds(m, account);
                lemma_with_account_wf(
                    m,
                    account,
                    AccountState { reward: 0, ..m.account(account) },
                    m.total_supply,
                );
            }
        },
        Call::SetBonus { account, bonus_pct } => {
            if s.set_bonus(account, bonus_pct, now) is Ok {
                lemma_update_reward_wf(s, account, now);
                let m = s.update_reward(account, now)->Ok_0;
                lemma_account_bounds(m, account);
                lemma_with_account_wf(
                    m,
                    account,
                    AccountState { bonus_pct, ..m.account(account) },
                    m.total_supply,
                );
            }
        },
        Call::TopUp { account, amount } => {
            if s.add_zml_reserve(account, amount) is Ok {
                lemma_account_bounds(s, account);
                lemma_with_account_wf(
                    s,
                    account,
                    AccountState {
                        reserve: (s.account(account).reserve + amount) as u128,
                        ..s.account(account)
                    },
                    s.total_supply,
                );
            }
        },
        Call::Spend { account, amount } => {
            if s.spend_reserve(account, amount) is Ok {
                lemma_account_bounds(s, account);
                lemma_with_account_wf(
                    s,
                    account,
                    AccountState {
                        reserve: (s.account(account).reserve - amount) as u128,
                        ..s.account(account)
                    },
                    s.total_supply,
                );
            }
        },
        Call::WithdrawReserve { account } => {
            if s.withdraw_zml_reserve(account) is Ok {
                lemma_account_bounds(s, account);
                lemma_with_account_wf(
                    s,
                    account,
                    AccountState { reserve: 0, ..s.account(account) },
                    s.total_supply,
                );
            }
        },
    }
}

/// The accumulator is monotonic: whatever calls are made between two times,
/// the reward per token at the later time is no less than it was at the
/// earlier time.
pub proof fn law_accumulator_is_monotonic(s: State, calls: Seq<TimedCall>, earlier: u64, later: u64)
    requires
        s.wf(),
        in_order(calls, earlier, later),
    ensures
        run(s, calls).reward_per_token_at(later) >= s.reward_per_token_at(earlier),
    decreases calls.len(),
{
    if calls.len() == 0 {
        lemma_reward_per_token_grows_with_time(s, earlier, later);
    } else {
        let first = calls[0];
        let t = step(s, first.call, first.now);
        lemma_reward_per_token_grows_with_time(s, earlier, first.now);
        lemma_step_keeps_accumulator(s, first.call, first.now);
        let rest = calls.drop_first();
        assert(in_order(rest, first.now, later));
        law_accumulator_is_monotonic(t, rest, first.now, later);
    }
}

/// Stake is conserved: the contract starts with a total that is the sum of
/// the staked balances, and after any sequence of calls it still is.
pub proof fn law_total_is_sum_of_balances(s: State, calls: Seq<TimedCall>)
    requires
        s.wf(),
    ensures
        run(s, calls).wf(),
        run(s, calls).total_supply == staked_sum(run(s, calls).entries),
    decreases calls.len(),
{
    if calls.len() > 0 {
        lemma_step_keeps_accumulator(s, calls[0].call, calls[0].now);
        law_total_is_sum_of_balances(step(s, calls[0].call, calls[0].now), calls.drop_first());
    }
}

/// A new contract meets the invariant.
pub proof fn law_new_contract_is_well_formed(owner_id: Seq<char>, now: u64)
    ensures
        State::new(owner_id, now).wf(),
{
}

/// No reward while empty: as long as nothing is staked, the reward per
/// token stays what it was, whatever calls are made and however much time
/// passes.
pub proof fn law_no_reward_while_empty(s: State, calls: Seq<TimedCall>, before: u64, after: u64)
    requires
        s.wf(),
        stays_empty(s, calls),
    ensures
        run(s, calls).reward_per_token_at(after) == s.reward_per_token_at(before),
        run(s, calls).reward_per_token(after) == Ok::<u128, Error>(s.reward_per_token_stored),
    decreases calls.len(),
{
    if calls.len() > 0 {
        let first = calls[0];
        let t = step(s, first.call, first.now);
        lemma_step_keeps_accumulator(s, first.call, first.now);
        lemma_step_of_empty(s, first.call, first.now);
        law_no_reward_while_empty(t, calls.drop_first(), before, after);
    }
}

/// A call on a contract with nothing staked leaves the stored accumulator
/// as it was.
proof fn lemma_step_of_empty(s: State, call: Call, now: u64)
    requires
        s.wf(),
        s.total_supply == 0,
    ensures
        step(s, call, now).reward_per_token_stored == s.reward_per_token_stored,
{
}

/// Settlement is idempotent: settling an account twice at the same time
/// gives what settling it once gives.
pub proof fn law_settlement_is_idempotent(s: State, id: Seq<char>, now: u64)
    requires
        s.wf(),
        s.update_reward(id, now) is Ok,
    ensures
        s.update_reward(id, now)->Ok_0.update_reward(id, now) == s.update_reward(id, now),
{
    let t = s.update_reward(id, now)->Ok_0;
    lemma_update_reward_wf(s, id, now);
    let a = t.account(id);
    // No time has passed since the first settlement, so nothing was emitted.
    assert(elapsed_seconds(now, now) == 0);
    assert(emission(0) == 0);
    assert(t.reward_per_token(now) == Ok::<u128, Error>(t.reward_per_token_stored));
    // The account was settled at the stored value, so it has earned nothing.
    lemma_nothing_earned_without_progress(a.balance, a.reward_per_token_paid, a.bonus_pct);
    assert(t.earned_at(id, t.reward_per_token_stored) == a.reward);
    // Writing back what is there changes nothing.
    let m = State {
        reward_per_token_stored: t.reward_per_token_stored,
        last_update_time: now,
        ..s
    };
    lemma_same_entries(s, m, id);
    lemma_with_account(m, id, a);
    assert(t.knows(id));
    assert(t.with_account(id, a).entries =~= t.entries);
}

/// A reserve transfer conserves what it moves: the receiver's deposit and
/// the commission add up to the amount, the commission is the amount times
/// the rate, rounded down, and the sender's reserve goes down by exactly the
/// amount, while every other account is left as it was.
pub proof fn law_transfer_conserves_reserve(
    s: State,
    env: EnvView,
    sender: Seq<char>,
    receiver: Seq<char>,
    amount: u128,
)
    requires
        s.wf(),
        s.transfer_zml_reserve(env, sender, receiver, amount) is Ok,
    ensures
        ({
            let (t, payout, tax) = s.transfer_zml_reserve(env, sender, receiver, amount)->Ok_0;
            &&& payout.amount + tax.amount == amount
            &&& tax.amount == amount * COMMISSION_NUMERATOR / (COMMISSION_DENOMINATOR as int)
            &&& payout.account_id == receiver
            &&& Ok::<Seq<char>, Error>(tax.account_id) == env.assert_parent_contract()
            &&& t.account(sender).reserve == s.account(sender).reserve - amount
            &&& forall|other: Seq<char>|
                other != sender ==> (#[trigger] t.account(other)) == s.account(other)
            &&& t.total_supply == s.total_supply
        }),
{
    lemma_commission_bounds(amount);
    lemma_with_account(
        s,
        sender,
        AccountState {
            reserve: (s.account(sender).reserve - amount) as u128,
            ..s.account(sender)
        },
    );
}

/// Unstaking is clamped: where the settlement goes through, unstaking more
/// than the account has staked succeeds, takes out exactly what was staked,
/// and leaves a balance of zero.
pub proof fn law_unstake_is_clamped(s: State, id: Seq<char>, amount: u128, now: u64)
    requires
        s.wf(),
        s.update_reward(id, now) is Ok,
        amount > s.account(id).balance,
    ensures
        s.withdraw_stake(id, amount, now) is Ok,
        s.withdraw_stake(id, amount, now)->Ok_0.1 == s.account(id).balance,
        s.withdraw_stake(id, amount, now)->Ok_0.0.account(id).balance == 0,
        s.withdraw_stake(id, amount, now)->Ok_0.0.total_supply == s.total_supply - s.account(
            id,
        ).balance,
{
    lemma_update_reward_wf(s, id, now);
    let m = s.update_reward(id, now)->Ok_0;
    let taken = m.clamped(id, amount);
    let n = State { total_supply: (m.total_supply - taken) as u128, ..m };
    lemma_account_bounds(m, id);
    lemma_same_entries(m, n, id);
    lemma_with_account(
        n,
        id,
        AccountState { balance: (m.account(id).balance - taken) as u128, ..m.account(id) },
    );
}

/// A settlement takes no reward away: what has accrued to an account only
/// grows when the account is settled.
pub proof fn law_settlement_only_adds_reward(s: State, id: Seq<char>, now: u64)
    requires
        s.wf(),
        s.update_reward(id, now) is Ok,
    ensures
        s.update_reward(id, now)->Ok_0.account(id).reward >= s.account(id).reward,
{
    lemma_update_reward_wf(s, id, now);
    lemma_account_bounds(s, id);
    lemma_reward_per_token_grows_with_time(s, now, now);
    let a = s.account(id);
    let per_token = s.reward_per_token(now)->Ok_0;
    lemma_earned_parts(a.balance, a.reward_per_token_paid, a.bonus_pct, per_token);
}

/// While the accumulator stands at zero, an account is owed what had accrued
/// to it and no more.
pub proof fn law_nothing_is_earned_at_zero(s: State, id: Seq<char>, now: u64)
    requires
        s.wf(),
        s.reward_per_token(now) == Ok::<u128, Error>(0),
    ensures
        s.earned(id, now) == Ok::<u128, Error>(s.account(id).reward),
{
    // The account was settled at an accumulator of zero or less, so at zero.
    lemma_account_bounds(s, id);
    lemma_reward_per_token_grows_with_time(s, now, now);
    let a = s.account(id);
    assert(a.reward_per_token_paid == 0);
    lemma_nothing_earned_without_progress(a.balance, a.reward_per_token_paid, a.bonus_pct);
    assert(s.earned_at(id, 0) == a.reward);
}

} // verus!
