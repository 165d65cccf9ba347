//! Staking: the reward accumulator, settlement, and the stake ledger.

use crate::account_id::AccountId;
use crate::contract::{Contract, Deposit, Env};
use crate::error::Error;
use crate::model::{
    apr, AccountState, ONE_TOKEN, REWARD_PER_SECOND, SECONDS_PER_YEAR,
};
use crate::proofs::{
    lemma_account_bounds, lemma_earned_parts, lemma_emission_nonnegative, lemma_update_reward_wf,
    lemma_with_account_wf,
};
use crate::utils::{assert_parent_contract, nano_to_sec};
use crate::wide::{mul_div, word, U256};
use vstd::prelude::*;

verus! {

impl Contract {
    /// The reward per staked token at the time of the call.
    ///
    /// Nothing accrues while nothing is staked. Otherwise the emission of the
    /// whole seconds since the last settlement is shared among all that is
    /// staked. It is an error if the time of the call is before the last
    /// settlement, or if the value does not fit in 128 bits.
    pub fn reward_per_token(&self, env: &Env) -> (r: Result<u128, Error>)
        ensures
            r == self@.reward_per_token(env.block_timestamp),
            r is Ok ==> r->Ok_0 >= self@.reward_per_token_stored,
    {
        let stored = self.reward_per_token_stored();
        let total = self.get_total_supply();
        if total == 0 {
            return Ok(stored);
        }
        let now = env.block_timestamp;
        let last = self.last_update_time();
        if now < last {
            return Err(Error::ArithmeticOverflow);
        }
        let seconds = nano_to_sec(now - last);
        let per_second: u128 = seconds * REWARD_PER_SECOND;
        proof {
            lemma_emission_nonnegative(seconds as int, total as int);
        }
        match mul_div(per_second, ONE_TOKEN, total) {
            None => Err(Error::ArithmeticOverflow),
            Some(accrued) => match stored.checked_add(accrued) {
                None => Err(Error::ArithmeticOverflow),
                Some(per_token) => Ok(per_token),
            },
        }
    }

    /// The reward owed to the account when the accumulator stands at
    /// `per_token`: what had accrued at its last settlement, and what its
    /// staked balance has earned since, with the account's bonus on the
    /// latter only.
    fn earned_at(&self, account_id: &AccountId, per_token: u128) -> (r: Result<u128, Error>)
        requires
            self.wf(),
            self@.reward_per_token_stored <= per_token,
        ensures
            r == (if self@.earned_at(account_id@, per_token) > u128::MAX {
                Err(Error::ArithmeticOverflow)
            } else {
                Ok(self@.earned_at(account_id@, per_token) as u128)
            }),
    {
        let a = self.account(account_id);
        proof {
            lemma_account_bounds(self@, account_id@);
        }
        let delta: u128 = per_token - a.reward_per_token_paid;
        proof {
            // Each part of the sum is at least zero, so the sum is beyond 128
            // bits as soon as a part is.
            lemma_earned_parts(a.balance, a.reward_per_token_paid, a.bonus_pct, per_token);
        }
        let base_earned = match mul_div(a.balance, delta, ONE_TOKEN) {
            Some(v) => v,
            None => {
                return Err(Error::ArithmeticOverflow);
            },
        };
        let bonus_earned = match (base_earned / 100).checked_mul(a.bonus_pct as u128) {
            Some(v) => v,
            None => {
                return Err(Error::ArithmeticOverflow);
            },
        };
        let newly = match base_earned.checked_add(bonus_earned) {
            Some(v) => v,
            None => {
                return Err(Error::ArithmeticOverflow);
            },
        };
        match a.reward.checked_add(newly) {
            Some(v) => Ok(v),
            None => Err(Error::ArithmeticOverflow),
        }
    }

    /// The reward owed to the account at the time of the call.
    pub fn earned(&self, env: &Env, account_id: &AccountId) -> (r: Result<u128, Error>)
        requires
            self.wf(),
        ensures
            r == self@.earned(account_id@, env.block_timestamp),
    {
        match self.reward_per_token(env) {
            Err(e) => Err(e),
            Ok(per_token) => self.earned_at(account_id, per_token),
        }
    }

    /// Settles the account: brings the accumulator to the time of the call
    /// and fixes the account's reward against it.
    ///
    /// Every operation that changes a staked balance, the total or a bonus
    /// settles first, so that what has accrued is paid at the stake that
    /// earned it.
    pub fn update_reward(&mut self, env: &Env, account_id: &AccountId) -> (r: Result<(), Error>)
        requires
            old(self).wf(),
        ensures
            final(self).wf(),
            match old(self)@.update_reward(account_id@, env.block_timestamp) {
                Ok(s) => r is Ok && final(self)@ == s,
                Err(e) => r == Err::<(), Error>(e) && final(self)@ == old(self)@,
            },
    {
        let per_token = match self.reward_per_token(env) {
            Ok(v) => v,
            Err(e) => {
                return Err(e);
            },
        };
        let earned = match self.earned_at(account_id, per_token) {
            Ok(v) => v,
            Err(e) => {
                return Err(e);
            },
        };
        let a = self.account(account_id);
        self.set_accumulator(per_token, env.block_timestamp);
        self.set_account(
            account_id,
            AccountState { reward: earned, reward_per_token_paid: per_token, ..a },
        );
        proof {
            lemma_update_reward_wf(old(self)@, account_id@, env.block_timestamp);
        }
        Ok(())
    }

    /// Stakes `amount` for the account, after settling it.
    ///
    /// The caller has already taken the tokens into the contract's custody.
    /// A zero amount is refused as `InvalidAmount`. A settlement that
    /// overflows, or a total beyond 128 bits, is refused as
    /// `ArithmeticOverflow`.
    pub fn internal_stake(
        &mut self,
        env: &Env,
        account_id: &AccountId,
        amount: u128,
    ) -> (r: Result<(), Error>)
        requires
            old(self).wf(),
        ensures
            final(self).wf(),
            match old(self)@.internal_stake(account_id@, amount, env.block_timestamp) {
                Ok(s) => r is Ok && final(self)@ == s,
                Err(e) => r == Err::<(), Error>(e) && final(self)@ == old(self)@,
            },
    {
        if amount == 0 {
            return Err(Error::InvalidAmount);
        }
        proof {
            if old(self)@.update_reward(account_id@, env.block_timestamp) is Ok {
                lemma_update_reward_wf(old(self)@, account_id@, env.block_timestamp);
            }
        }
        let total = match self.get_total_supply().checked_add(amount) {
            Some(v) => v,
            None => {
                return Err(Error::ArithmeticOverflow);
            },
        };
        match self.update_reward(env, account_id) {
            Ok(()) => {},
            Err(e) => {
                return Err(e);
            },
        }
        let a = self.account(account_id);
        proof {
            lemma_account_bounds(self@, account_id@);
            lemma_with_account_wf(
                self@,
                account_id@,
                AccountState { balance: (a.balance + amount) as u128, ..a },
                total,
            );
        }
        self.set_total_supply(total);
        self.set_account(account_id, AccountState { balance: a.balance + amount, ..a });
        Ok(())
    }

    /// Unstakes `amount` for the caller, after settling it, and says what
    /// goes back to the caller.
    ///
    /// An amount beyond the staked balance takes out the whole balance: that
    /// is no error.
    pub fn withdraw_stake(&mut self, env: &Env, amount: u128) -> (r: Result<Deposit, Error>)
        requires
            old(self).wf(),
        ensures
            final(self).wf(),
            match old(self)@.withdraw_stake(
                env.predecessor_account_id@,
                amount,
                env.block_timestamp,
            ) {
                Ok((s, taken)) => r is Ok && final(self)@ == s && r->Ok_0.account_id@
                    == env.predecessor_account_id@ && r->Ok_0.amount == taken,
                Err(e) => r is Err && r->Err_0 == e && final(self)@ == old(self)@,
            },
    {
        let account_id = &env.predecessor_account_id;
        match self.update_reward(env, account_id) {
            Ok(()) => {},
            Err(e) => {
                return Err(e);
            },
        }
        let a = self.account(account_id);
        let taken = if a.balance < amount {
            a.balance
        } else {
            amount
        };
        proof {
            lemma_account_bounds(self@, account_id@);
            lemma_with_account_wf(
                self@,
                account_id@,
                AccountState { balance: (a.balance - taken) as u128, ..a },
                (self@.total_supply - taken) as u128,
            );
        }
        let total = self.get_total_supply() - taken;
        self.set_total_supply(total);
        self.set_account(account_id, AccountState { balance: a.balance - taken, ..a });
        Ok(Deposit { account_id: account_id.clone(), amount: taken })
    }

    /// Withdraws the caller's reward, after settling it, and says what goes
    /// to the caller.
    ///
    /// Refused as `NoReward` where nothing has accrued.
    pub fn withdraw_reward(&mut self, env: &Env) -> (r: Result<Deposit, Error>)
        requires
            old(self).wf(),
        ensures
            final(self).wf(),
            match old(self)@.withdraw_reward(env.predecessor_account_id@, env.block_timestamp) {
                Ok((s, reward)) => r is Ok && final(self)@ == s && r->Ok_0.account_id@
                    == env.predecessor_account_id@ && r->Ok_0.amount == reward,
                Err(e) => r is Err && r->Err_0 == e && final(self)@ == old(self)@,
            },
    {
        let account_id = &env.predecessor_account_id;
        // Nothing is changed before it is known that there is a reward.
        let reward = match self.earned(env, account_id) {
            Ok(v) => v,
            Err(e) => {
                return Err(e);
            },
        };
        proof {
            lemma_update_reward_wf(old(self)@, account_id@, env.block_timestamp);
        }
        if reward == 0 {
            return Err(Error::NoReward);
        }
        match self.update_reward(env, account_id) {
            Ok(()) => {},
            Err(e) => {
                return Err(e);
            },
        }
        let a = self.account(account_id);
        proof {
            lemma_with_account_wf(
                self@,
                account_id@,
                AccountState { reward: 0, ..a },
                self@.total_supply,
            );
        }
        self.set_account(account_id, AccountState { reward: 0, ..a });
        Ok(Deposit { account_id: account_id.clone(), amount: reward })
    }

    /// Sets the bonus of the account to `bonus_pct` percent, after settling
    /// it, so that the bonus applies only to what is earned from now on.
    ///
    /// Only the parent account may call this.
    pub fn stake_monster(
        &mut self,
        env: &Env,
        bonus_pct: u8,
        account_id: &AccountId,
    ) -> (r: Result<(), Error>)
        requires
            old(self).wf(),
        ensures
            final(self).wf(),
            match old(self)@.stake_monster(env@, bonus_pct, account_id@) {
                Ok(s) => r is Ok && final(self)@ == s,
                Err(e) => r == Err::<(), Error>(e) && final(self)@ == old(self)@,
            },
    {
        match assert_parent_contract(env) {
            Ok(_) => {},
            Err(e) => {
                return Err(e);
            },
        }
        match self.update_reward(env, account_id) {
            Ok(()) => {},
            Err(e) => {
                return Err(e);
            },
        }
        let a = self.account(account_id);
        proof {
            lemma_account_bounds(self@, account_id@);
            lemma_with_account_wf(
                self@,
                account_id@,
                AccountState { bonus_pct, ..a },
                self@.total_supply,
            );
        }
        self.set_account(account_id, AccountState { bonus_pct, ..a });
        Ok(())
    }

    /// Clears the bonus of the account, after settling it.
    ///
    /// Only the parent account may call this.
    pub fn unstake_monster(&mut self, env: &Env, account_id: &AccountId) -> (r: Result<(), Error>)
        requires
            old(self).wf(),
        ensures
            final(self).wf(),
            match old(self)@.stake_monster(env@, 0, account_id@) {
                Ok(s) => r is Ok && final(self)@ == s,
                Err(e) => r == Err::<(), Error>(e) && final(self)@ == old(self)@,
            },
    {
        self.stake_monster(env, 0, account_id)
    }

    /// The staked balance of the account.
    pub fn get_user_stake(&self, account_id: &AccountId) -> (balance: u128)
        requires
            self.wf(),
        ensures
            balance == self@.account(account_id@).balance,
    {
        self.account(account_id).balance
    }

    /// The reward owed to the account at the time of the call.
    pub fn get_user_earned(&self, env: &Env, account_id: &AccountId) -> (r: Result<u128, Error>)
        requires
            self.wf(),
        ensures
            r == self@.earned(account_id@, env.block_timestamp),
    {
        self.earned(env, account_id)
    }

    /// The yearly emission in percent of all that is staked, rounded down; 0
    /// while nothing is staked.
    pub fn get_apr(&self) -> (rate: u128)
        ensures
            rate == apr(self@.total_supply),
    {
        let total = self.get_total_supply();
        if total == 0 {
            return 0;
        }
        let yearly: u128 = REWARD_PER_SECOND * SECONDS_PER_YEAR;
        let product = U256::mul_u128(yearly, 100);
        proof {
            // With these constants the product has no upper word.
            assert(product.hi == 0) by (nonlinear_arith)
                requires
                    product.hi * word() + product.lo == yearly * 100,
                    yearly * 100 < word(),
                    0 <= product.lo,
                    word() > 0,
            ;
        }
        product.div_u128(total)
    }

    /// The reward per staked token at the time of the call.
    pub fn get_reward_per_token(&self, env: &Env) -> (r: Result<u128, Error>)
        ensures
            r == self@.reward_per_token(env.block_timestamp),
    {
        self.reward_per_token(env)
    }

    /// The bonus of the account, in percent; 0 for none.
    pub fn get_stake_monster_pct(&self, account_id: &AccountId) -> (bonus_pct: u8)
        requires
            self.wf(),
        ensures
            bonus_pct == self@.account(account_id@).bonus_pct,
    {
        self.account(account_id).bonus_pct
    }
}

} // verus!
