//! The mathematical model of the contract.
//!
//! A [`State`] is what a contract holds, as plain mathematical values. Each
//! operation of the contract is a function from a state and the call's
//! arguments to a `Result`: the next state and what the call hands out, or the
//! error. A call that fails leaves the state as it was. The executable
//! contract is proved to compute exactly these functions.

use crate::account_id::valid_account_name;
use crate::error::Error;
use vstd::prelude::*;

verus! {

/// One whole token, in its smallest unit. It is also the scale of the
/// fixed-point accumulator.
pub const ONE_TOKEN: u128 = 1_000_000_000_000_000_000_000_000;

/// The reward that the pool emits each second, shared by all that is staked.
pub const REWARD_PER_SECOND: u128 = ONE_TOKEN / 2;

/// Nanoseconds in a second: timestamps are in nanoseconds.
pub const NANOS_PER_SECOND: u64 = 1_000_000_000;

/// Seconds in a year of 365 days.
pub const SECONDS_PER_YEAR: u128 = 31_536_000;

/// The commission on a reserve transfer is 5 in 1000.
pub const COMMISSION_NUMERATOR: u128 = 5;

/// See [`COMMISSION_NUMERATOR`].
pub const COMMISSION_DENOMINATOR: u128 = 1000;

/// What the contract holds for one account.
#[derive(Clone, Copy, Debug, PartialEq, Eq, Structural)]
pub struct AccountState {
    /// The staked balance.
    pub balance: u128,
    /// The reward accrued at the last settlement and not yet withdrawn.
    pub reward: u128,
    /// The accumulator value at the last settlement.
    pub reward_per_token_paid: u128,
    /// The bonus on newly earned reward, in percent; 0 for none.
    pub bonus_pct: u8,
    /// The reserve.
    pub reserve: u128,
}

impl AccountState {
    /// The state of an account that the contract has never seen.
    pub open spec fn empty() -> AccountState {
        AccountState { balance: 0, reward: 0, reward_per_token_paid: 0, bonus_pct: 0, reserve: 0 }
    }
}

/// An account and its state.
pub struct Entry {
    pub account_id: Seq<char>,
    pub state: AccountState,
}

/// An instruction to the token ledger: credit `amount` to `account_id`.
pub struct DepositView {
    pub account_id: Seq<char>,
    pub amount: u128,
}

/// What a call sees of its environment.
pub struct EnvView {
    /// The account that the contract runs under.
    pub current_account_id: Seq<char>,
    /// The account that made the call.
    pub predecessor_account_id: Seq<char>,
    /// The time of the call, in nanoseconds.
    pub block_timestamp: u64,
}

/// The state of a contract.
pub struct State {
    /// The account that owns the contract.
    pub owner_id: Seq<char>,
    /// The accounts that the contract has seen, in the order in which it
    /// first saw them.
    pub entries: Seq<Entry>,
    /// The sum of all staked balances.
    pub total_supply: u128,
    /// The time of the last settlement, in nanoseconds.
    pub last_update_time: u64,
    /// The reward per staked token, scaled by [`ONE_TOKEN`], as of the last
    /// settlement.
    pub reward_per_token_stored: u128,
}

/// The sum of the staked balances of the given accounts.
pub open spec fn staked_sum(entries: Seq<Entry>) -> int
    decreases entries.len(),
{
    if entries.len() == 0 {
        0
    } else {
        staked_sum(entries.drop_last()) + entries.last().state.balance
    }
}

/// Whole seconds from `last` to `now`; none if `now` is the earlier.
pub open spec fn elapsed_seconds(last: u64, now: u64) -> int {
    if now >= last {
        (now - last) / (NANOS_PER_SECOND as int)
    } else {
        0
    }
}

/// The reward emitted in the given number of seconds, scaled by
/// [`ONE_TOKEN`].
pub open spec fn emission(seconds: int) -> int {
    seconds * REWARD_PER_SECOND * ONE_TOKEN
}

/// The reward that a staked balance earns while the accumulator goes from
/// `paid` to `per_token`, with the bonus on top.
pub open spec fn newly_earned(balance: u128, paid: u128, bonus_pct: u8, per_token: u128) -> int {
    let base = balance * (per_token - paid) / (ONE_TOKEN as int);
    base + (base / 100) * bonus_pct
}

/// The commission on a reserve transfer of `amount`, rounded down.
pub open spec fn commission(amount: u128) -> int {
    amount * COMMISSION_NUMERATOR / (COMMISSION_DENOMINATOR as int)
}

/// The yearly emission in percent of `total_supply`, rounded down.
pub open spec fn apr(total_supply: u128) -> int {
    if total_supply == 0 {
        0
    } else {
        REWARD_PER_SECOND * SECONDS_PER_YEAR * 100 / (total_supply as int)
    }
}

/// `i` is the place of the first `.` in `name`.
pub open spec fn is_first_dot(name: Seq<char>, i: int) -> bool {
    &&& 0 <= i < name.len()
    &&& name[i] == '.'
    &&& forall|j: int| 0 <= j < i ==> name[j] != '.'
}

/// The name of the parent account: what follows the first `.` of `name`.
pub open spec fn parent_of(name: Seq<char>) -> Option<Seq<char>> {
    if exists|i: int| is_first_dot(name, i) {
        let i = choose|i: int| is_first_dot(name, i);
        Some(name.subrange(i + 1, name.len() as int))
    } else {
        None
    }
}

/// The account that burnt tokens are credited to.
pub open spec fn burn_account(parent: Seq<char>) -> Seq<char> {
    "burn."@ + parent
}

impl EnvView {
    /// The parent account, if it is the caller; a privileged call from
    /// anyone else is unauthorized.
    pub open spec fn assert_parent_contract(self) -> Result<Seq<char>, Error> {
        match parent_of(self.current_account_id) {
            Some(parent) => if parent == self.predecessor_account_id {
                Ok(parent)
            } else {
                Err(Error::Unauthorized)
            },
            None => Err(Error::Unauthorized),
        }
    }
}

impl State {
    /// The state of a contract that `owner_id` has just created at `now`.
    pub open spec fn new(owner_id: Seq<char>, now: u64) -> State {
        State {
            owner_id,
            entries: Seq::empty(),
            total_supply: 0,
            last_update_time: now,
            reward_per_token_stored: 0,
        }
    }

    /// Whether the contract has seen the account.
    pub open spec fn knows(self, id: Seq<char>) -> bool {
        exists|i: int| 0 <= i < self.entries.len() && (#[trigger] self.entries[i]).account_id == id
    }

    /// The place of a known account among the entries.
    pub open spec fn index_of(self, id: Seq<char>) -> int {
        choose|i: int| 0 <= i < self.entries.len() && (#[trigger] self.entries[i]).account_id == id
    }

    /// What the contract holds for the account.
    pub open spec fn account(self, id: Seq<char>) -> AccountState {
        if self.knows(id) {
            self.entries[self.index_of(id)].state
        } else {
            AccountState::empty()
        }
    }

    /// The state in which the account holds `state`, and all else is as in
    /// `self`.
    pub open spec fn with_account(self, id: Seq<char>, state: AccountState) -> State {
        let entry = Entry { account_id: id, state };
        State {
            entries: if self.knows(id) {
                self.entries.update(self.index_of(id), entry)
            } else {
                self.entries.push(entry)
            },
            ..self
        }
    }

    /// No account has two entries.
    pub open spec fn distinct(self) -> bool {
        forall|i: int, j: int|
            0 <= i < j < self.entries.len() ==> (#[trigger] self.entries[i]).account_id != (
            #[trigger] self.entries[j]).account_id
    }

    /// The invariant of the contract: no account has two entries, the total
    /// is the sum of the staked balances, and no account was settled at an
    /// accumulator value beyond the stored one.
    pub open spec fn wf(self) -> bool {
        &&& self.distinct()
        &&& self.total_supply == staked_sum(self.entries)
        &&& forall|i: int|
            0 <= i < self.entries.len() ==> (#[trigger] self.entries[i]).state.reward_per_token_paid
                <= self.reward_per_token_stored
    }

    /// The reward per staked token at `now`, as a number of any size.
    /// Nothing accrues while nothing is staked.
    pub open spec fn reward_per_token_at(self, now: u64) -> int {
        if self.total_supply == 0 {
            self.reward_per_token_stored as int
        } else {
            self.reward_per_token_stored + emission(elapsed_seconds(self.last_update_time, now)) / (
            self.total_supply as int)
        }
    }

    /// The reward per staked token at `now`. It is an error if something is
    /// staked and `now` is before the last settlement, or if the value does
    /// not fit in 128 bits.
    pub open spec fn reward_per_token(self, now: u64) -> Result<u128, Error> {
        if self.total_supply > 0 && now < self.last_update_time {
            Err(Error::ArithmeticOverflow)
        } else if self.reward_per_token_at(now) > u128::MAX {
            Err(Error::ArithmeticOverflow)
        } else {
            Ok(self.reward_per_token_at(now) as u128)
        }
    }

    /// The reward owed to the account when the accumulator stands at
    /// `per_token`, as a number of any size.
    pub open spec fn earned_at(self, id: Seq<char>, per_token: u128) -> int {
        let a = self.account(id);
        a.reward + newly_earned(a.balance, a.reward_per_token_paid, a.bonus_pct, per_token)
    }

    /// The reward owed to the account at `now`.
    pub open spec fn earned(self, id: Seq<char>, now: u64) -> Result<u128, Error> {
        match self.reward_per_token(now) {
            Err(e) => Err(e),
            Ok(per_token) => if self.earned_at(id, per_token) > u128::MAX {
                Err(Error::ArithmeticOverflow)
            } else {
                Ok(self.earned_at(id, per_token) as u128)
            },
        }
    }

    /// Settlement: the accumulator is brought to `now`, and the account's
    /// reward is fixed against it.
    pub open spec fn update_reward(self, id: Seq<char>, now: u64) -> Result<State, Error> {
        match self.earned(id, now) {
            Err(e) => Err(e),
            Ok(earned) => {
                let per_token = self.reward_per_token(now)->Ok_0;
                Ok(
                    State {
                        reward_per_token_stored: per_token,
                        last_update_time: now,
                        ..self
                    }.with_account(
                        id,
                        AccountState {
                            reward: earned,
                            reward_per_token_paid: per_token,
                            ..self.account(id)
                        },
                    ),
                )
            },
        }
    }

    /// Staking `amount` for the account at `now`.
    pub open spec fn internal_stake(
        self,
        id: Seq<char>,
        amount: u128,
        now: u64,
    ) -> Result<State, Error> {
        if amount == 0 {
            Err(Error::InvalidAmount)
        } else {
            match self.update_reward(id, now) {
                Err(e) => Err(e),
                Ok(s) => if s.total_supply + amount > u128::MAX {
                    Err(Error::ArithmeticOverflow)
                } else {
                    Ok(
                        State { total_supply: (s.total_supply + amount) as u128, ..s }.with_account(
                            id,
                            AccountState {
                                balance: (s.account(id).balance + amount) as u128,
                                ..s.account(id)
                            },
                        ),
                    )
                },
            }
        }
    }

    /// What an unstaking of `amount` takes out: no more than the account has
    /// staked.
    pub open spec fn clamped(self, id: Seq<char>, amount: u128) -> u128 {
        if self.account(id).balance < amount {
            self.account(id).balance
        } else {
            amount
        }
    }

    /// Unstaking `amount` for the account at `now`: the next state and the
    /// amount that goes back to the account.
    pub open spec fn withdraw_stake(
        self,
        id: Seq<char>,
        amount: u128,
        now: u64,
    ) -> Result<(State, u128), Error> {
        match self.update_reward(id, now) {
            Err(e) => Err(e),
            Ok(s) => {
                let taken = s.clamped(id, amount);
                Ok(
                    (
                        State { total_supply: (s.total_supply - taken) as u128, ..s }.with_account(
                            id,
                            AccountState {
                                balance: (s.account(id).balance - taken) as u128,
                                ..s.account(id)
                            },
                        ),
                        taken,
                    ),
                )
            },
        }
    }

    /// Withdrawing the account's reward at `now`: the next state and the
    /// reward that goes to the account.
    pub open spec fn withdraw_reward(
        self,
        id: Seq<char>,
        now: u64,
    ) -> Result<(State, u128), Error> {
        match self.update_reward(id, now) {
            Err(e) => Err(e),
            Ok(s) => if s.account(id).reward == 0 {
                Err(Error::NoReward)
            } else {
                Ok(
                    (
                        s.with_account(id, AccountState { reward: 0, ..s.account(id) }),
                        s.account(id).reward,
                    ),
                )
            },
        }
    }

    /// Setting the account's bonus to `bonus_pct` at `now`; 0 clears it.
    pub open spec fn set_bonus(
        self,
        id: Seq<char>,
        bonus_pct: u8,
        now: u64,
    ) -> Result<State, Error> {
        match self.update_reward(id, now) {
            Err(e) => Err(e),
            Ok(s) => Ok(s.with_account(id, AccountState { bonus_pct, ..s.account(id) })),
        }
    }

    /// Adding `amount` to the account's reserve.
    pub open spec fn add_zml_reserve(self, id: Seq<char>, amount: u128) -> Result<State, Error> {
        if amount == 0 {
            Err(Error::InvalidAmount)
        } else if self.account(id).reserve + amount > u128::MAX {
            Err(Error::ArithmeticOverflow)
        } else {
            Ok(
                self.with_account(
                    id,
                    AccountState {
                        reserve: (self.account(id).reserve + amount) as u128,
                        ..self.account(id)
                    },
                ),
            )
        }
    }

    /// Taking `amount` out of the account's reserve.
    pub open spec fn spend_reserve(self, id: Seq<char>, amount: u128) -> Result<State, Error> {
        if self.account(id).reserve < amount {
            Err(Error::InsufficientReserve)
        } else {
            Ok(
                self.with_account(
                    id,
                    AccountState {
                        reserve: (self.account(id).reserve - amount) as u128,
                        ..self.account(id)
                    },
                ),
            )
        }
    }

    /// Setting the bonus of the account, which only the parent account may
    /// do.
    pub open spec fn stake_monster(
        self,
        env: EnvView,
        bonus_pct: u8,
        id: Seq<char>,
    ) -> Result<State, Error> {
        match env.assert_parent_contract() {
            Err(e) => Err(e),
            Ok(_) => self.set_bonus(id, bonus_pct, env.block_timestamp),
        }
    }

    /// Burning `amount` of the account's reserve, which only the parent
    /// account may do: the next state and the deposit to the burn account.
    pub open spec fn burn_zml_reserve(
        self,
        env: EnvView,
        id: Seq<char>,
        amount: u128,
    ) -> Result<(State, DepositView), Error> {
        match env.assert_parent_contract() {
            Err(e) => Err(e),
            Ok(parent) => match self.spend_reserve(id, amount) {
                Err(e) => Err(e),
                Ok(s) => if valid_account_name(burn_account(parent)) {
                    Ok((s, DepositView { account_id: burn_account(parent), amount }))
                } else {
                    Err(Error::InvalidAccountId)
                },
            },
        }
    }

    /// Transferring `amount` out of the sender's reserve, which only the
    /// parent account may do: the next state, the deposit to the receiver,
    /// and the commission, which goes to the parent account.
    pub open spec fn transfer_zml_reserve(
        self,
        env: EnvView,
        sender: Seq<char>,
        receiver: Seq<char>,
        amount: u128,
    ) -> Result<(State, DepositView, DepositView), Error> {
        match env.assert_parent_contract() {
            Err(e) => Err(e),
            Ok(parent) => match self.spend_reserve(sender, amount) {
                Err(e) => Err(e),
                Ok(s) => Ok(
                    (
                        s,
                        DepositView {
                            account_id: receiver,
                            amount: (amount - commission(amount)) as u128,
                        },
                        DepositView { account_id: parent, amount: commission(amount) as u128 },
                    ),
                ),
            },
        }
    }

    /// An incoming transfer of `amount` tokens from `sender`, tagged `msg`:
    /// the next state and the amount that the contract did not take.
    ///
    /// A transfer tagged for staking is staked, one tagged for the reserve is
    /// added to the sender's reserve, and one with any other tag is left
    /// untouched.
    pub open spec fn ft_on_transfer(
        self,
        env: EnvView,
        sender: Seq<char>,
        amount: u128,
        msg: Seq<char>,
    ) -> Result<(State, u128), Error> {
        if msg == "ft_staking"@ {
            match self.internal_stake(sender, amount, env.block_timestamp) {
                Err(e) => Err(e),
                Ok(s) => Ok((s, 0)),
            }
        } else if msg == "ft_add_zml_reserve"@ || msg == "ft_create_user_clan"@ {
            match self.add_zml_reserve(sender, amount) {
                Err(e) => Err(e),
                Ok(s) => Ok((s, 0)),
            }
        } else {
            Ok((self, amount))
        }
    }

    /// Emptying the account's reserve: the next state and what was in it.
    pub open spec fn withdraw_zml_reserve(self, id: Seq<char>) -> Result<(State, u128), Error> {
        if self.account(id).reserve == 0 {
            Err(Error::NoReserve)
        } else {
            Ok(
                (
                    self.with_account(id, AccountState { reserve: 0, ..self.account(id) }),
                    self.account(id).reserve,
                ),
            )
        }
    }
}

} // verus!
