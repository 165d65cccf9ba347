use zml_staking::{
    Account, AccountId, AccountState, Contract, Env, Error, ONE_TOKEN, REWARD_PER_SECOND,
};

const START: u64 = 1_700_000_000_000_000_000;
const SECOND: u64 = 1_000_000_000;

fn acct(name: &str) -> AccountId {
    AccountId::parse(name).unwrap()
}

/// The environment of a call by `caller`, `seconds` after the start.
fn at(seconds: u64, caller: &str) -> Env {
    Env {
        current_account_id: acct("ft.zomland.near"),
        predecessor_account_id: acct(caller),
        block_timestamp: START + seconds * SECOND,
    }
}

fn fresh() -> Contract {
    Contract::new(&at(0, "zomland.near"), acct("owner.near"), 0).0
}

#[test]
fn a_new_contract_is_empty() {
    let c = fresh();
    assert_eq!(c.owner_id().as_str(), "owner.near");
    assert_eq!(c.get_total_supply(), 0);
    assert_eq!(c.reward_per_token_stored(), 0);
    assert_eq!(c.last_update_time(), START);
    assert!(c.accounts().is_empty());
    assert_eq!(c.get_apr(), 0);
    assert_eq!(c.get_user_stake(&acct("alice.near")), 0);
    assert_eq!(c.get_stake_monster_pct(&acct("alice.near")), 0);
    assert_eq!(c.get_user_earned(&at(100, "alice.near"), &acct("alice.near")), Ok(0));
}

#[test]
fn reward_rate_is_half_a_token_per_second() {
    assert_eq!(ONE_TOKEN, 1_000_000_000_000_000_000_000_000);
    assert_eq!(REWARD_PER_SECOND, 500_000_000_000_000_000_000_000);
}

#[test]
fn sole_staker_earns_the_whole_emission() {
    let a = acct("alice.near");
    let mut c = fresh();
    assert_eq!(c.internal_stake(&at(0, "alice.near"), &a, 100 * ONE_TOKEN), Ok(()));
    assert_eq!(c.get_user_stake(&a), 100 * ONE_TOKEN);
    assert_eq!(c.get_total_supply(), 100 * ONE_TOKEN);
    assert_eq!(c.earned(&at(10, "alice.near"), &a), Ok(5 * ONE_TOKEN));
    assert_eq!(c.get_user_earned(&at(10, "alice.near"), &a), Ok(5 * ONE_TOKEN));
    // 10 s * 0.5 token/s, over 100 tokens staked, scaled by one token.
    assert_eq!(c.reward_per_token(&at(10, "alice.near")), Ok(50_000_000_000_000_000_000_000));
    assert_eq!(c.get_reward_per_token(&at(10, "alice.near")), Ok(50_000_000_000_000_000_000_000));
}

#[test]
fn equal_stakers_split_the_emission_evenly() {
    let a = acct("alice.near");
    let b = acct("bob.near");
    let mut c = fresh();
    assert_eq!(c.internal_stake(&at(0, "alice.near"), &a, 50 * ONE_TOKEN), Ok(()));
    assert_eq!(c.internal_stake(&at(0, "bob.near"), &b, 50 * ONE_TOKEN), Ok(()));
    assert_eq!(c.earned(&at(10, "alice.near"), &a), Ok(2_500_000_000_000_000_000_000_000));
    assert_eq!(c.earned(&at(10, "bob.near"), &b), Ok(2_500_000_000_000_000_000_000_000));
}

#[test]
fn a_later_staker_earns_from_when_it_staked() {
    let a = acct("alice.near");
    let b = acct("bob.near");
    let mut c = fresh();
    c.internal_stake(&at(0, "alice.near"), &a, 100 * ONE_TOKEN).unwrap();
    c.internal_stake(&at(10, "bob.near"), &b, 300 * ONE_TOKEN).unwrap();
    // Alice alone for 10 s, then a quarter of the pool for 8 s.
    assert_eq!(c.earned(&at(18, "alice.near"), &a), Ok(6 * ONE_TOKEN));
    assert_eq!(c.earned(&at(18, "bob.near"), &b), Ok(3 * ONE_TOKEN));
    assert_eq!(c.account(&b).reward_per_token_paid, 50_000_000_000_000_000_000_000);
}

#[test]
fn parts_of_a_second_do_not_count() {
    let a = acct("alice.near");
    let mut c = fresh();
    c.internal_stake(&at(0, "alice.near"), &a, 100 * ONE_TOKEN).unwrap();
    let mut env = at(1, "alice.near");
    env.block_timestamp -= 1;
    assert_eq!(c.earned(&env, &a), Ok(0));
    env.block_timestamp += 1;
    assert_eq!(c.earned(&env, &a), Ok(ONE_TOKEN / 2));
}

#[test]
fn stake_of_nothing_is_refused() {
    let a = acct("alice.near");
    let mut c = fresh();
    assert_eq!(c.internal_stake(&at(0, "alice.near"), &a, 0), Err(Error::InvalidAmount));
    assert!(c.accounts().is_empty());
    assert_eq!(c.get_total_supply(), 0);
}

#[test]
fn stake_beyond_128_bits_is_refused() {
    let a = acct("alice.near");
    let b = acct("bob.near");
    let mut c = fresh();
    c.internal_stake(&at(0, "alice.near"), &a, u128::MAX - 5).unwrap();
    assert_eq!(c.internal_stake(&at(0, "bob.near"), &b, 6), Err(Error::ArithmeticOverflow));
    assert_eq!(c.get_total_supply(), u128::MAX - 5);
    assert_eq!(c.accounts().len(), 1);
    assert_eq!(c.internal_stake(&at(0, "bob.near"), &b, 5), Ok(()));
    assert_eq!(c.get_total_supply(), u128::MAX);
}

#[test]
fn unstake_beyond_the_balance_takes_the_balance() {
    let e = acct("erin.near");
    let mut c = fresh();
    c.internal_stake(&at(0, "erin.near"), &e, 30).unwrap();
    let out = c.withdraw_stake(&at(0, "erin.near"), 100).unwrap();
    assert_eq!(out.account_id, e);
    assert_eq!(out.amount, 30);
    assert_eq!(c.get_user_stake(&e), 0);
    assert_eq!(c.get_total_supply(), 0);
}

#[test]
fn unstake_of_a_part_leaves_the_rest() {
    let e = acct("erin.near");
    let mut c = fresh();
    c.internal_stake(&at(0, "erin.near"), &e, 40 * ONE_TOKEN).unwrap();
    let out = c.withdraw_stake(&at(4, "erin.near"), 10 * ONE_TOKEN).unwrap();
    assert_eq!(out.amount, 10 * ONE_TOKEN);
    assert_eq!(c.get_user_stake(&e), 30 * ONE_TOKEN);
    assert_eq!(c.get_total_supply(), 30 * ONE_TOKEN);
    // The 4 s before the unstaking were settled at the old stake.
    assert_eq!(c.account(&e).reward, 2 * ONE_TOKEN);
    assert_eq!(c.last_update_time(), START + 4 * SECOND);
    assert_eq!(c.reward_per_token_stored(), 50_000_000_000_000_000_000_000);
    // One token over 30 staked is not a whole number per token: the
    // accumulator rounds down, and the reward with it.
    assert_eq!(c.reward_per_token(&at(6, "erin.near")), Ok(83333333333333333333333));
    assert_eq!(c.earned(&at(6, "erin.near"), &e), Ok(2999999999999999999999990));
}

#[test]
fn unstake_by_a_stranger_takes_nothing() {
    let mut c = fresh();
    let out = c.withdraw_stake(&at(3, "nobody.near"), 100).unwrap();
    assert_eq!(out.amount, 0);
    assert_eq!(c.get_total_supply(), 0);
}

#[test]
fn reward_is_withdrawn_once() {
    let a = acct("alice.near");
    let mut c = fresh();
    c.internal_stake(&at(0, "alice.near"), &a, 100 * ONE_TOKEN).unwrap();
    let out = c.withdraw_reward(&at(10, "alice.near")).unwrap();
    assert_eq!(out.account_id, a);
    assert_eq!(out.amount, 5 * ONE_TOKEN);
    assert_eq!(c.account(&a).reward, 0);
    assert_eq!(c.earned(&at(10, "alice.near"), &a), Ok(0));
    assert_eq!(c.withdraw_reward(&at(10, "alice.near")).unwrap_err(), Error::NoReward);
    assert_eq!(c.get_user_stake(&a), 100 * ONE_TOKEN);
}

#[test]
fn no_reward_changes_nothing() {
    let a = acct("alice.near");
    let mut c = fresh();
    c.internal_stake(&at(0, "alice.near"), &a, 100 * ONE_TOKEN).unwrap();
    // Bob has nothing staked: the failed call must not even settle.
    assert_eq!(c.withdraw_reward(&at(10, "bob.near")).unwrap_err(), Error::NoReward);
    assert_eq!(c.last_update_time(), START);
    assert_eq!(c.reward_per_token_stored(), 0);
    assert_eq!(c.accounts().len(), 1);
}

#[test]
fn bonus_applies_to_what_is_newly_earned() {
    let f = acct("frank.near");
    let g = acct("grace.near");
    let parent = at(0, "zomland.near");
    let mut c = fresh();
    c.internal_stake(&at(0, "frank.near"), &f, 1000).unwrap();
    c.internal_stake(&at(0, "grace.near"), &g, REWARD_PER_SECOND - 1000).unwrap();
    assert_eq!(c.stake_monster(&parent, 10, &f), Ok(()));
    assert_eq!(c.get_stake_monster_pct(&f), 10);
    // In one second Frank's stake earns 1000, and the bonus adds 10 for
    // each whole 100 of that.
    assert_eq!(c.earned(&at(1, "frank.near"), &f), Ok(1100));
    assert_eq!(c.earned(&at(1, "grace.near"), &g), Ok(REWARD_PER_SECOND - 1000));
}

#[test]
fn bonus_is_not_applied_to_what_was_earned_before() {
    let f = acct("frank.near");
    let g = acct("grace.near");
    let mut c = fresh();
    c.internal_stake(&at(0, "frank.near"), &f, 1000).unwrap();
    c.internal_stake(&at(0, "grace.near"), &g, REWARD_PER_SECOND - 1000).unwrap();
    assert_eq!(c.stake_monster(&at(1, "zomland.near"), 10, &f), Ok(()));
    // The first second was settled without the bonus.
    assert_eq!(c.account(&f).reward, 1000);
    assert_eq!(c.earned(&at(2, "frank.near"), &f), Ok(2100));
    assert_eq!(c.unstake_monster(&at(2, "zomland.near"), &f), Ok(()));
    assert_eq!(c.get_stake_monster_pct(&f), 0);
    assert_eq!(c.earned(&at(3, "frank.near"), &f), Ok(3100));
}

#[test]
fn bonus_rounds_down_by_whole_hundreds() {
    let f = acct("frank.near");
    let g = acct("grace.near");
    let mut c = fresh();
    c.internal_stake(&at(0, "frank.near"), &f, 199).unwrap();
    c.internal_stake(&at(0, "grace.near"), &g, REWARD_PER_SECOND - 199).unwrap();
    c.stake_monster(&at(0, "zomland.near"), 255, &f).unwrap();
    assert_eq!(c.earned(&at(1, "frank.near"), &f), Ok(199 + 255));
}

#[test]
fn only_the_parent_sets_a_bonus() {
    let f = acct("frank.near");
    let mut c = fresh();
    c.internal_stake(&at(0, "frank.near"), &f, 1000).unwrap();
    assert_eq!(c.stake_monster(&at(5, "frank.near"), 10, &f), Err(Error::Unauthorized));
    assert_eq!(c.unstake_monster(&at(5, "owner.near"), &f), Err(Error::Unauthorized));
    assert_eq!(c.get_stake_monster_pct(&f), 0);
    assert_eq!(c.last_update_time(), START);
}

#[test]
fn apr_is_the_yearly_emission_in_percent_of_the_stake() {
    let a = acct("alice.near");
    let mut c = fresh();
    c.internal_stake(&at(0, "alice.near"), &a, 100 * ONE_TOKEN).unwrap();
    assert_eq!(c.get_apr(), 15_768_000);
    c.internal_stake(&at(0, "alice.near"), &a, 200 * ONE_TOKEN).unwrap();
    assert_eq!(c.get_apr(), 5_256_000);
    c.withdraw_stake(&at(0, "alice.near"), 300 * ONE_TOKEN - 7).unwrap();
    assert_eq!(c.get_apr(), 225_257_142_857_142_857_142_857_142_857_142);
}

#[test]
fn an_accumulator_beyond_128_bits_is_an_error() {
    let a = acct("alice.near");
    let mut c = fresh();
    // One unit staked: a second's emission per unit is 5 * 10^47.
    c.internal_stake(&at(0, "alice.near"), &a, 1).unwrap();
    assert_eq!(c.reward_per_token(&at(1, "alice.near")), Err(Error::ArithmeticOverflow));
    assert_eq!(c.earned(&at(1, "alice.near"), &a), Err(Error::ArithmeticOverflow));
    assert_eq!(c.update_reward(&at(1, "alice.near"), &a), Err(Error::ArithmeticOverflow));
    assert_eq!(c.internal_stake(&at(1, "alice.near"), &a, 5), Err(Error::ArithmeticOverflow));
    assert_eq!(c.withdraw_stake(&at(1, "alice.near"), 1).unwrap_err(), Error::ArithmeticOverflow);
    assert_eq!(c.withdraw_reward(&at(1, "alice.near")).unwrap_err(), Error::ArithmeticOverflow);
    assert_eq!(
        c.stake_monster(&at(1, "zomland.near"), 3, &a),
        Err(Error::ArithmeticOverflow)
    );
    assert_eq!(c.get_user_stake(&a), 1);
    assert_eq!(c.last_update_time(), START);
    // Within the same second nothing is emitted, and all goes through.
    assert_eq!(c.withdraw_stake(&at(0, "alice.near"), 1).unwrap().amount, 1);
}

#[test]
fn a_reward_beyond_128_bits_is_an_error() {
    let a = acct("alice.near");
    let held = AccountState {
        balance: 100 * ONE_TOKEN,
        reward: u128::MAX - ONE_TOKEN,
        reward_per_token_paid: 0,
        bonus_pct: 0,
        reserve: 0,
    };
    let mut c = Contract::restore(
        acct("owner.near"),
        vec![Account { account_id: a.clone(), state: held }],
        100 * ONE_TOKEN,
        START,
        0,
    )
    .unwrap();
    assert_eq!(c.earned(&at(1, "alice.near"), &a), Ok(u128::MAX - ONE_TOKEN / 2));
    assert_eq!(c.earned(&at(2, "alice.near"), &a), Ok(u128::MAX));
    assert_eq!(c.earned(&at(3, "alice.near"), &a), Err(Error::ArithmeticOverflow));
    assert_eq!(c.update_reward(&at(3, "alice.near"), &a), Err(Error::ArithmeticOverflow));
    assert_eq!(c.reward_per_token_stored(), 0);
    assert_eq!(c.account(&a), held);
}

#[test]
fn newly_earned_reward_beyond_128_bits_is_an_error() {
    let a = acct("alice.near");
    let held = AccountState {
        balance: 1_000_000 * ONE_TOKEN,
        reward: 0,
        reward_per_token_paid: 0,
        bonus_pct: 0,
        reserve: 0,
    };
    let c = Contract::restore(
        acct("owner.near"),
        vec![Account { account_id: a.clone(), state: held }],
        1_000_000 * ONE_TOKEN,
        START,
        u128::MAX / 2,
    )
    .unwrap();
    assert_eq!(c.reward_per_token(&at(0, "alice.near")), Ok(u128::MAX / 2));
    assert_eq!(c.earned(&at(0, "alice.near"), &a), Err(Error::ArithmeticOverflow));
}

#[test]
fn a_bonus_beyond_128_bits_is_an_error() {
    let a = acct("alice.near");
    let held = AccountState {
        balance: ONE_TOKEN,
        reward: 0,
        reward_per_token_paid: 0,
        bonus_pct: 0,
        reserve: 0,
    };
    let with_bonus = AccountState { bonus_pct: 100, ..held };
    // One token staked, and an accumulator so far ahead of the account that
    // what it has earned fits in 128 bits, and twice that does not.
    let plain = Contract::restore(
        acct("owner.near"),
        vec![Account { account_id: a.clone(), state: held }],
        ONE_TOKEN,
        START,
        u128::MAX - 55,
    )
    .unwrap();
    assert_eq!(plain.earned(&at(0, "alice.near"), &a), Ok(u128::MAX - 55));
    let doubled = Contract::restore(
        acct("owner.near"),
        vec![Account { account_id: a.clone(), state: with_bonus }],
        ONE_TOKEN,
        START,
        u128::MAX - 55,
    )
    .unwrap();
    assert_eq!(doubled.earned(&at(0, "alice.near"), &a), Err(Error::ArithmeticOverflow));
}

#[test]
fn a_call_before_the_last_settlement_is_an_error_while_anything_is_staked() {
    let a = acct("alice.near");
    let mut c = fresh();
    let mut early = at(0, "alice.near");
    early.block_timestamp -= 1;
    // Nothing staked: no time is read.
    assert_eq!(c.reward_per_token(&early), Ok(0));
    c.internal_stake(&at(0, "alice.near"), &a, ONE_TOKEN).unwrap();
    assert_eq!(c.reward_per_token(&early), Err(Error::ArithmeticOverflow));
    assert_eq!(c.update_reward(&early, &a), Err(Error::ArithmeticOverflow));
}

#[test]
fn settlement_fixes_the_reward_and_moves_the_accumulator() {
    let a = acct("alice.near");
    let mut c = fresh();
    c.internal_stake(&at(0, "alice.near"), &a, 100 * ONE_TOKEN).unwrap();
    assert_eq!(c.update_reward(&at(10, "alice.near"), &a), Ok(()));
    assert_eq!(c.reward_per_token_stored(), 50_000_000_000_000_000_000_000);
    assert_eq!(c.last_update_time(), START + 10 * SECOND);
    assert_eq!(
        c.account(&a),
        AccountState {
            balance: 100 * ONE_TOKEN,
            reward: 5 * ONE_TOKEN,
            reward_per_token_paid: 50_000_000_000_000_000_000_000,
            bonus_pct: 0,
            reserve: 0,
        }
    );
}

#[test]
fn settlement_of_a_stranger_records_the_accumulator() {
    let a = acct("alice.near");
    let s = acct("stranger.near");
    let mut c = fresh();
    c.internal_stake(&at(0, "alice.near"), &a, 100 * ONE_TOKEN).unwrap();
    assert_eq!(c.update_reward(&at(10, "stranger.near"), &s), Ok(()));
    let list = c.accounts();
    assert_eq!(list.len(), 2);
    assert_eq!(list[1].account_id, s);
    assert_eq!(list[1].state.reward, 0);
    assert_eq!(list[1].state.reward_per_token_paid, 50_000_000_000_000_000_000_000);
    // Alice is still owed the same.
    assert_eq!(c.earned(&at(10, "alice.near"), &a), Ok(5 * ONE_TOKEN));
}
