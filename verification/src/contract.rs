//! The contract: its state, and how a call reads and changes it.

use crate::account_id::AccountId;
use crate::error::Error;
use crate::model::{staked_sum, AccountState, DepositView, Entry, EnvView, State};
use crate::proofs::{lemma_index_of, lemma_staked_sum_prefix};
use vstd::prelude::*;

verus! {

/// What a call sees of its environment.
#[derive(Debug)]
pub struct Env {
    /// The account that the contract runs under.
    pub current_account_id: AccountId,
    /// The account that made the call.
    pub predecessor_account_id: AccountId,
    /// The time of the call, in nanoseconds.
    pub block_timestamp: u64,
}

impl View for Env {
    type V = EnvView;

    open spec fn view(&self) -> EnvView {
        EnvView {
            current_account_id: self.current_account_id@,
            predecessor_account_id: self.predecessor_account_id@,
            block_timestamp: self.block_timestamp,
        }
    }
}

/// An instruction to the token ledger: credit `amount` to `account_id`.
#[derive(Debug)]
pub struct Deposit {
    pub account_id: AccountId,
    pub amount: u128,
}

impl View for Deposit {
    type V = DepositView;

    open spec fn view(&self) -> DepositView {
        DepositView { account_id: self.account_id@, amount: self.amount }
    }
}

/// An account and what the contract holds for it.
#[derive(Debug)]
pub struct Account {
    pub account_id: AccountId,
    pub state: AccountState,
}

impl View for Account {
    type V = Entry;

    open spec fn view(&self) -> Entry {
        Entry { account_id: self.account_id@, state: self.state }
    }
}

/// The entries that a list of accounts stands for.
pub open spec fn entries_of(accounts: Seq<Account>) -> Seq<Entry> {
    Seq::new(accounts.len(), |i: int| accounts[i]@)
}

/// What the settling of a registration's storage bill comes to: the refund
/// to send back, if any.
///
/// A registration mints nothing, so any amount but zero is refused. The
/// bill is the growth of the storage in use, from `storage_before` to
/// `storage_after`, times the cost of a byte, and the attached deposit must
/// cover it. What is left of the deposit is refunded, unless it is a single
/// unit or nothing.
pub open spec fn storage_refund(
    amount: u128,
    storage_before: u64,
    storage_after: u64,
    storage_byte_cost: u128,
    attached_deposit: u128,
) -> Result<Option<u128>, Error> {
    let cost = storage_byte_cost * (storage_after - storage_before);
    if amount != 0 {
        Err(Error::InvalidAmount)
    } else if storage_after < storage_before || cost > u128::MAX {
        Err(Error::ArithmeticOverflow)
    } else if cost > attached_deposit {
        Err(Error::InsufficientDeposit)
    } else if attached_deposit - cost > 1 {
        Ok(Some((attached_deposit - cost) as u128))
    } else {
        Ok(None)
    }
}

/// The contract: who owns it, what it holds for each account, the total
/// staked, and the reward accumulator.
///
/// The accounts are kept in a list, in the order in which the contract
/// first saw them, and an account is looked up by going through the list.
/// The fields are private: a contract is made by [`Contract::new`] or
/// [`Contract::restore`], and every operation keeps [`Contract::wf`].
#[derive(Debug)]
pub struct Contract {
    owner_id: AccountId,
    accounts: Vec<Account>,
    total_supply: u128,
    last_update_time: u64,
    reward_per_token_stored: u128,
}

impl View for Contract {
    type V = State;

    closed spec fn view(&self) -> State {
        State {
            owner_id: self.owner_id@,
            entries: entries_of(self.accounts@),
            total_supply: self.total_supply,
            last_update_time: self.last_update_time,
            reward_per_token_stored: self.reward_per_token_stored,
        }
    }
}

impl Contract {
    /// The invariant that every operation keeps (see [`State::wf`]).
    pub open spec fn wf(&self) -> bool {
        self@.wf()
    }

    /// The place of the account among the entries, if the contract has seen
    /// it.
    fn find(&self, account_id: &AccountId) -> (r: Option<usize>)
        requires
            self@.distinct(),
        ensures
            match r {
                Some(i) => self@.knows(account_id@) && i == self@.index_of(account_id@),
                None => !self@.knows(account_id@),
            },
    {
        let mut i: usize = 0;
        while i < self.accounts.len()
            invariant
                self@.distinct(),
                i <= self.accounts.len(),
                forall|j: int|
                    0 <= j < i ==> (#[trigger] self@.entries[j]).account_id != account_id@,
            decreases self.accounts.len() - i,
        {
            if self.accounts[i].account_id == *account_id {
                proof {
                    lemma_index_of(self@, i as int);
                }
                return Some(i);
            }
            i = i + 1;
        }
        None
    }

    /// A contract that `owner_id` creates at the time of the call, with
    /// nothing staked and nothing accrued, and the deposit that issues the
    /// token: the whole supply goes to the account that the contract runs
    /// under.
    pub fn new(env: &Env, owner_id: AccountId, total_supply: u128) -> (r: (Contract, Deposit))
        ensures
            r.0.wf(),
            r.0@ == State::new(owner_id@, env.block_timestamp),
            r.1@ == (DepositView { account_id: env.current_account_id@, amount: total_supply }),
    {
        let contract = Contract {
            owner_id,
            accounts: Vec::new(),
            total_supply: 0,
            last_update_time: env.block_timestamp,
            reward_per_token_stored: 0,
        };
        assert(contract@.entries =~= Seq::empty());
        (contract, Deposit { account_id: env.current_account_id.clone(), amount: total_supply })
    }

    /// The contract that holds the given parts, if they meet the invariant.
    ///
    /// This is how a contract that was taken apart to be stored is put
    /// together again.
    pub fn restore(
        owner_id: AccountId,
        accounts: Vec<Account>,
        total_supply: u128,
        last_update_time: u64,
        reward_per_token_stored: u128,
    ) -> (r: Option<Contract>)
        ensures
            r is Some <==> (State {
                owner_id: owner_id@,
                entries: entries_of(accounts@),
                total_supply,
                last_update_time,
                reward_per_token_stored,
            }).wf(),
            r is Some ==> r->0@ == (State {
                owner_id: owner_id@,
                entries: entries_of(accounts@),
                total_supply,
                last_update_time,
                reward_per_token_stored,
            }),
    {
        let ghost s = State {
            owner_id: owner_id@,
            entries: entries_of(accounts@),
            total_supply,
            last_update_time,
            reward_per_token_stored,
        };
        let mut sum: u128 = 0;
        let mut i: usize = 0;
        while i < accounts.len()
            invariant
                i <= accounts.len(),
                s.entries == entries_of(accounts@),
                s.reward_per_token_stored == reward_per_token_stored,
                sum == staked_sum(s.entries.subrange(0, i as int)),
                forall|k: int|
                    0 <= k < i ==> (#[trigger] s.entries[k]).state.reward_per_token_paid
                        <= reward_per_token_stored,
                forall|j: int, k: int|
                    0 <= j < k < i ==> (#[trigger] s.entries[j]).account_id != (
                    #[trigger] s.entries[k]).account_id,
            decreases accounts.len() - i,
        {
            let account = &accounts[i];
            assert(s.entries[i as int] == account@);
            if account.state.reward_per_token_paid > reward_per_token_stored {
                return None;
            }
            let mut j: usize = 0;
            while j < i
                invariant
                    j <= i < accounts.len(),
                    s.entries == entries_of(accounts@),
                    account == accounts[i as int],
                    forall|k: int|
                        0 <= k < j ==> (#[trigger] s.entries[k]).account_id != account.account_id@,
                decreases i - j,
            {
                if accounts[j].account_id == account.account_id {
                    assert(s.entries[j as int].account_id == s.entries[i as int].account_id);
                    return None;
                }
                j = j + 1;
            }
            proof {
                assert(s.entries.subrange(0, i + 1).drop_last() =~= s.entries.subrange(
                    0,
                    i as int,
                ));
                lemma_staked_sum_prefix(s.entries, i + 1);
            }
            sum = match sum.checked_add(account.state.balance) {
                Some(v) => v,
                None => {
                    return None;
                },
            };
            i = i + 1;
        }
        assert(s.entries.subrange(0, i as int) =~= s.entries);
        if sum != total_supply {
            return None;
        }
        Some(
            Contract {
                owner_id,
                accounts,
                total_supply,
                last_update_time,
                reward_per_token_stored,
            },
        )
    }

    /// A copy of what the contract holds for every account, in the order in
    /// which it first saw them.
    pub fn accounts(&self) -> (list: Vec<Account>)
        ensures
            entries_of(list@) == self@.entries,
    {
        let mut list: Vec<Account> = Vec::new();
        let mut i: usize = 0;
        while i < self.accounts.len()
            invariant
                i <= self.accounts.len(),
                list@.len() == i,
                forall|k: int| 0 <= k < i ==> (#[trigger] list@[k])@ == self.accounts@[k]@,
            decreases self.accounts.len() - i,
        {
            let account = &self.accounts[i];
            list.push(Account { account_id: account.account_id.clone(), state: account.state });
            i = i + 1;
        }
        list
    }

    /// Settles the storage bill of a registration, and says what to refund
    /// to the caller, if anything (see [`storage_refund`]).
    pub fn ft_mint(
        amount: u128,
        storage_before: u64,
        storage_after: u64,
        storage_byte_cost: u128,
        attached_deposit: u128,
    ) -> (r: Result<Option<u128>, Error>)
        ensures
            r == storage_refund(
                amount,
                storage_before,
                storage_after,
                storage_byte_cost,
                attached_deposit,
            ),
    {
        if amount != 0 {
            return Err(Error::InvalidAmount);
        }
        if storage_after < storage_before {
            return Err(Error::ArithmeticOverflow);
        }
        let storage_used = storage_after - storage_before;
        let required_cost = match storage_byte_cost.checked_mul(storage_used as u128) {
            Some(v) => v,
            None => {
                return Err(Error::ArithmeticOverflow);
            },
        };
        if required_cost > attached_deposit {
            return Err(Error::InsufficientDeposit);
        }
        let refund = attached_deposit - required_cost;
        if refund > 1 {
            Ok(Some(refund))
        } else {
            Ok(None)
        }
    }

    /// The account that owns the contract.
    pub fn owner_id(&self) -> (owner_id: &AccountId)
        ensures
            owner_id@ == self@.owner_id,
    {
        &self.owner_id
    }

    /// The time of the last settlement, in nanoseconds.
    pub fn last_update_time(&self) -> (time: u64)
        ensures
            time == self@.last_update_time,
    {
        self.last_update_time
    }

    /// The reward per staked token as of the last settlement.
    pub fn reward_per_token_stored(&self) -> (per_token: u128)
        ensures
            per_token == self@.reward_per_token_stored,
    {
        self.reward_per_token_stored
    }

    /// The sum of all staked balances.
    pub fn get_total_supply(&self) -> (total: u128)
        ensures
            total == self@.total_supply,
    {
        self.total_supply
    }

    /// Records a settlement: the accumulator stands at `per_token` as of `now`.
    pub(crate) fn set_accumulator(&mut self, per_token: u128, now: u64)
        ensures
            final(self)@ == (State {
                reward_per_token_stored: per_token,
                last_update_time: now,
                ..old(self)@
            }),
    {
        self.reward_per_token_stored = per_token;
        self.last_update_time = now;
    }

    /// Records the sum of all staked balances.
    pub(crate) fn set_total_supply(&mut self, total: u128)
        ensures
            final(self)@ == (State { total_supply: total, ..old(self)@ }),
    {
        self.total_supply = total;
    }

    /// What the contract holds for the account.
    pub fn account(&self, account_id: &AccountId) -> (state: AccountState)
        requires
            self.wf(),
        ensures
            state == self@.account(account_id@),
    {
        match self.find(account_id) {
            Some(i) => self.accounts[i].state,
            None => AccountState {
                balance: 0,
                reward: 0,
                reward_per_token_paid: 0,
                bonus_pct: 0,
                reserve: 0,
            },
        }
    }

    /// Makes the account hold `state`.
    pub(crate) fn set_account(&mut self, account_id: &AccountId, state: AccountState)
        requires
            old(self)@.distinct(),
        ensures
            final(self)@ == old(self)@.with_account(account_id@, state),
    {
        match self.find(account_id) {
            Some(i) => {
                self.accounts[i].state = state;
            },
            None => {
                self.accounts.push(Account { account_id: account_id.clone(), state });
            },
        }
        assert(self@.entries =~= old(self)@.with_account(account_id@, state).entries);
    }
}

} // verus!
