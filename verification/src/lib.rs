//! The accounting core of a staking and reserve engine for a fungible token.
//!
//! Staked balances share a reward that the pool emits at a constant rate.
//! The shares are kept with a single accumulator, the reward per staked
//! token, and each account is settled against it whenever its stake or its
//! bonus changes. Beside the stake, every account has a reserve that can be
//! topped up, burnt, transferred for a commission, or withdrawn.
//!
//! The contract keeps no token balances and moves no tokens: an operation
//! says what is to be credited to whom, as [`Deposit`]s, and the caller
//! carries that out. Nor does it read a clock or ask who is calling: each
//! call is given its [`Env`]. An operation that is refused returns an
//! [`Error`] and changes nothing.
//!
//! # What is proved
//!
//! [`model`] defines each operation as a mathematical function on the state
//! of the contract, and [`staking`] and [`reserve`] are proved to compute
//! those functions, without overflow and without panics. [`laws`] states
//! what follows for every run of the contract: the accumulator never goes
//! down, the total is the sum of the stakes, nothing accrues while nothing is
//! staked, and so on. [`wide`] is the 256-bit arithmetic under the reward
//! formulas.
//!
//! One thing is taken on trust: that `near_sdk::env::is_valid_account_id`
//! decides the rule for account identifiers that [`account_id`] writes down.

pub mod account_id;
pub mod contract;
pub mod error;
pub mod laws;
pub mod model;
pub mod proofs;
pub mod reserve;
pub mod staking;
pub mod storage;
pub mod utils;
pub mod wide;

pub use account_id::AccountId;
pub use contract::{Account, Contract, Deposit, Env};
pub use error::Error;
pub use model::{AccountState, ONE_TOKEN, REWARD_PER_SECOND};
pub use reserve::Transfer;
pub use storage::StorageKeys;
pub use utils::{assert_parent_contract, convert_to_yocto, nano_to_sec};
