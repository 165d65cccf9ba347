//! The reserve ledger, and the routing of incoming transfers.

use crate::account_id::AccountId;
use crate::contract::{Contract, Deposit, Env};
use crate::error::Error;
use crate::model::{AccountState, COMMISSION_DENOMINATOR, COMMISSION_NUMERATOR};
use crate::proofs::{lemma_account_bounds, lemma_with_account_wf};
use crate::utils::{assert_parent_contract, same_text};
use crate::wide::mul_ratio;
use vstd::prelude::*;
use vstd::string::*;

verus! {

/// What a reserve transfer hands out.
#[derive(Debug)]
pub struct Transfer {
    /// What the receiver gets: the amount less the commission.
    pub payout: Deposit,
    /// The commission, which the parent account gets.
    pub commission: Deposit,
}

impl Contract {
    /// Gives the account a new reserve. Nothing else changes.
    fn set_reserve(&mut self, account_id: &AccountId, reserve: u128)
        requires
            old(self).wf(),
        ensures
            final(self).wf(),
            final(self)@ == old(self)@.with_account(
                account_id@,
                AccountState { reserve, ..old(self)@.account(account_id@) },
            ),
    {
        let a = self.account(account_id);
        proof {
            lemma_account_bounds(self@, account_id@);
            lemma_with_account_wf(
                self@,
                account_id@,
                AccountState { reserve, ..a },
                self@.total_supply,
            );
        }
        self.set_account(account_id, AccountState { reserve, ..a });
    }

    /// Adds `amount` to the reserve of the account.
    ///
    /// The amount comes from a transfer that the contract has received. A
    /// zero amount is refused as `InvalidAmount`, a reserve beyond 128 bits
    /// as `ArithmeticOverflow`.
    pub fn add_zml_reserve(
        &mut self,
        account_id: &AccountId,
        amount: u128,
    ) -> (r: Result<(), Error>)
        requires
            old(self).wf(),
        ensures
            final(self).wf(),
            match old(self)@.add_zml_reserve(account_id@, amount) {
                Ok(s) => r is Ok && final(self)@ == s,
                Err(e) => r == Err::<(), Error>(e) && final(self)@ == old(self)@,
            },
    {
        if amount == 0 {
            return Err(Error::InvalidAmount);
        }
        let reserved = self.account(account_id).reserve;
        match reserved.checked_add(amount) {
            None => Err(Error::ArithmeticOverflow),
            Some(reserve) => {
                self.set_reserve(account_id, reserve);
                Ok(())
            },
        }
    }

    /// The reserve of the account.
    pub fn get_zml_reserve(&self, account_id: &AccountId) -> (reserve: u128)
        requires
            self.wf(),
        ensures
            reserve == self@.account(account_id@).reserve,
    {
        self.account(account_id).reserve
    }

    /// Burns `required_zml` of the account's reserve, and says what to
    /// credit to the burn account, `burn.` and the name of the parent.
    ///
    /// Only the parent account may call this. A reserve below the amount is
    /// refused as `InsufficientReserve`.
    pub fn burn_zml_reserve(
        &mut self,
        env: &Env,
        account_id: &AccountId,
        required_zml: u128,
    ) -> (r: Result<Deposit, Error>)
        requires
            old(self).wf(),
        ensures
            final(self).wf(),
            match old(self)@.burn_zml_reserve(env@, account_id@, required_zml) {
                Ok((s, deposit)) => r is Ok && final(self)@ == s && r->Ok_0@ == deposit,
                Err(e) => r is Err && r->Err_0 == e && final(self)@ == old(self)@,
            },
    {
        let main_contract = match assert_parent_contract(env) {
            Ok(parent) => parent,
            Err(e) => {
                return Err(e);
            },
        };
        let reserved = self.account(account_id).reserve;
        if reserved < required_zml {
            return Err(Error::InsufficientReserve);
        }
        let burn_name = String::from_str("burn.").concat(main_contract.as_str());
        let burn_account_id = match AccountId::parse(burn_name.as_str()) {
            Some(id) => id,
            None => {
                return Err(Error::InvalidAccountId);
            },
        };
        self.set_reserve(account_id, reserved - required_zml);
        Ok(Deposit { account_id: burn_account_id, amount: required_zml })
    }

    /// Transfers `required_zml` out of the sender's reserve, and says what
    /// to credit to whom: the commission to the parent account, the rest to
    /// the receiver.
    ///
    /// Only the parent account may call this. A reserve below the amount is
    /// refused as `InsufficientReserve`. The commission is rounded down, so
    /// what rounding leaves goes to the receiver, and the two deposits add up
    /// to what the sender's reserve loses.
    pub fn transfer_zml_reserve(
        &mut self,
        env: &Env,
        sender_id: &AccountId,
        receiver_id: &AccountId,
        required_zml: u128,
    ) -> (r: Result<Transfer, Error>)
        requires
            old(self).wf(),
        ensures
            final(self).wf(),
            match old(self)@.transfer_zml_reserve(env@, sender_id@, receiver_id@, required_zml) {
                Ok((s, payout, tax)) => r is Ok && final(self)@ == s && r->Ok_0.payout@ == payout
                    && r->Ok_0.commission@ == tax,
                Err(e) => r is Err && r->Err_0 == e && final(self)@ == old(self)@,
            },
    {
        let main_contract = match assert_parent_contract(env) {
            Ok(parent) => parent,
            Err(e) => {
                return Err(e);
            },
        };
        let reserved = self.account(sender_id).reserve;
        if reserved < required_zml {
            return Err(Error::InsufficientReserve);
        }
        let tax = mul_ratio(required_zml, COMMISSION_NUMERATOR, COMMISSION_DENOMINATOR);
        let total = required_zml - tax;
        self.set_reserve(sender_id, reserved - required_zml);
        Ok(
            Transfer {
                payout: Deposit { account_id: receiver_id.clone(), amount: total },
                commission: Deposit { account_id: main_contract, amount: tax },
            },
        )
    }

    /// Empties the caller's reserve, and says what goes to the caller.
    ///
    /// Refused as `NoReserve` where the reserve is empty.
    pub fn withdraw_zml_reserve(&mut self, env: &Env) -> (r: Result<Deposit, Error>)
        requires
            old(self).wf(),
        ensures
            final(self).wf(),
            match old(self)@.withdraw_zml_reserve(env.predecessor_account_id@) {
                Ok((s, reserved)) => r is Ok && final(self)@ == s && r->Ok_0.account_id@
                    == env.predecessor_account_id@ && r->Ok_0.amount == reserved,
                Err(e) => r is Err && r->Err_0 == e && final(self)@ == old(self)@,
            },
    {
        let account_id = &env.predecessor_account_id;
        let reserved = self.account(account_id).reserve;
        if reserved == 0 {
            return Err(Error::NoReserve);
        }
        self.set_reserve(account_id, 0);
        Ok(Deposit { account_id: account_id.clone(), amount: reserved })
    }

    /// Takes an incoming transfer of `amount` tokens from `sender_id`, and
    /// says how much of it the contract did not take.
    ///
    /// A transfer tagged `ft_staking` is staked. One tagged
    /// `ft_add_zml_reserve` or `ft_create_user_clan` goes to the sender's
    /// reserve. One with any other tag is left untouched, and all of it is
    /// handed back.
    pub fn ft_on_transfer(
        &mut self,
        env: &Env,
        sender_id: &AccountId,
        amount: u128,
        msg: &str,
    ) -> (r: Result<u128, Error>)
        requires
            old(self).wf(),
        ensures
            final(self).wf(),
            match old(self)@.ft_on_transfer(env@, sender_id@, amount, msg@) {
                Ok((s, unused)) => r == Ok::<u128, Error>(unused) && final(self)@ == s,
                Err(e) => r == Err::<u128, Error>(e) && final(self)@ == old(self)@,
            },
    {
        if same_text(msg, "ft_staking") {
            match self.internal_stake(env, sender_id, amount) {
                Ok(()) => Ok(0),
                Err(e) => Err(e),
            }
        } else if same_text(msg, "ft_add_zml_reserve") || same_text(msg, "ft_create_user_clan") {
            match self.add_zml_reserve(sender_id, amount) {
                Ok(()) => Ok(0),
                Err(e) => Err(e),
            }
        } else {
            Ok(amount)
        }
    }
}

} // verus!
