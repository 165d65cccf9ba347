//! The keys under which the contract's collections are persisted.

use vstd::prelude::*;

verus! {

/// The collections that the contract keeps in storage.
#[derive(Clone, Copy, Debug, PartialEq, Eq, Structural)]
pub enum StorageKeys {
    /// The token ledger.
    Token,
    /// The accumulator value at each account's last settlement.
    UserRewardPerTokenPaid,
    /// The reward accrued to each account.
    Rewards,
    /// The staked balance of each account.
    Balances,
    /// The bonus percentage of each account.
    StakeMonsterPct,
    /// The reserve of each account.
    ZmlReserved,
}

impl StorageKeys {
    /// The byte that each collection's storage keys begin with.
    pub open spec fn prefix_spec(self) -> u8 {
        match self {
            StorageKeys::Token => 0,
            StorageKeys::UserRewardPerTokenPaid => 1,
            StorageKeys::Rewards => 2,
            StorageKeys::Balances => 3,
            StorageKeys::StakeMonsterPct => 4,
            StorageKeys::ZmlReserved => 5,
        }
    }

    /// The byte that this collection's storage keys begin with: the position
    /// of the key in the enumeration.
    #[verifier::when_used_as_spec(prefix_spec)]
    pub fn prefix(self) -> (b: u8)
        ensures
            b == self.prefix_spec(),
    {
        match self {
            StorageKeys::Token => 0,
            StorageKeys::UserRewardPerTokenPaid => 1,
            StorageKeys::Rewards => 2,
            StorageKeys::Balances => 3,
            StorageKeys::StakeMonsterPct => 4,
            StorageKeys::ZmlReserved => 5,
        }
    }

    /// No two collections share a prefix.
    pub proof fn lemma_prefix_is_injective(a: StorageKeys, b: StorageKeys)
        requires
            a.prefix() == b.prefix(),
        ensures
            a == b,
    {
    }
}

} // verus!
