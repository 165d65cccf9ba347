use zml_staking::utils::same_text;
use zml_staking::{assert_parent_contract, convert_to_yocto, nano_to_sec, AccountId, Env, Error};

fn env_of(current: &str, predecessor: &str) -> Env {
    Env {
        current_account_id: AccountId::parse(current).unwrap(),
        predecessor_account_id: AccountId::parse(predecessor).unwrap(),
        block_timestamp: 0,
    }
}

#[test]
fn nano_to_sec_rounds_down() {
    assert_eq!(nano_to_sec(0), 0);
    assert_eq!(nano_to_sec(999_999_999), 0);
    assert_eq!(nano_to_sec(1_000_000_000), 1);
    assert_eq!(nano_to_sec(10_999_999_999), 10);
    assert_eq!(nano_to_sec(u64::MAX), 18_446_744_073);
}

#[test]
fn parent_may_call() {
    let parent = assert_parent_contract(&env_of("ft.zomland.near", "zomland.near"));
    assert_eq!(parent, Ok(AccountId::parse("zomland.near").unwrap()));
}

#[test]
fn parent_is_what_follows_the_first_dot() {
    assert!(assert_parent_contract(&env_of("a.b.c.near", "b.c.near")).is_ok());
    assert_eq!(assert_parent_contract(&env_of("a.b.c.near", "c.near")), Err(Error::Unauthorized));
    assert_eq!(assert_parent_contract(&env_of("a.b.c.near", "near")), Err(Error::Unauthorized));
}

#[test]
fn others_may_not_call() {
    assert_eq!(
        assert_parent_contract(&env_of("ft.zomland.near", "alice.near")),
        Err(Error::Unauthorized)
    );
    assert_eq!(
        assert_parent_contract(&env_of("ft.zomland.near", "ft.zomland.near")),
        Err(Error::Unauthorized)
    );
}

#[test]
fn an_account_without_a_parent_authorizes_nobody() {
    assert_eq!(assert_parent_contract(&env_of("near", "near")), Err(Error::Unauthorized));
}

#[test]
fn a_parent_that_is_no_account_authorizes_nobody() {
    // What follows the dot is too short to be an account.
    assert_eq!(assert_parent_contract(&env_of("ft.a", "aa")), Err(Error::Unauthorized));
}

#[test]
fn convert_to_yocto_reads_whole_numbers() {
    assert_eq!(convert_to_yocto("0"), Some(0));
    assert_eq!(convert_to_yocto("1"), Some(1_000_000_000_000_000_000_000_000));
    assert_eq!(convert_to_yocto("25"), Some(25_000_000_000_000_000_000_000_000));
    assert_eq!(convert_to_yocto("007"), Some(7_000_000_000_000_000_000_000_000));
}

#[test]
fn convert_to_yocto_reads_fractions() {
    assert_eq!(convert_to_yocto("0.1"), Some(100_000_000_000_000_000_000_000));
    assert_eq!(convert_to_yocto("1.5"), Some(1_500_000_000_000_000_000_000_000));
    assert_eq!(convert_to_yocto("0.05"), Some(50_000_000_000_000_000_000_000));
    assert_eq!(convert_to_yocto("0.000000000000000000000001"), Some(1));
    assert_eq!(
        convert_to_yocto("2.000000000000000000000000"),
        Some(2_000_000_000_000_000_000_000_000)
    );
    assert_eq!(convert_to_yocto("3.10"), Some(3_100_000_000_000_000_000_000_000));
}

#[test]
fn convert_to_yocto_takes_a_plus_sign() {
    assert_eq!(convert_to_yocto("+1"), Some(1_000_000_000_000_000_000_000_000));
    // The sign counts as a character of the fraction.
    assert_eq!(convert_to_yocto("0.+1"), Some(10_000_000_000_000_000_000_000));
}

#[test]
fn convert_to_yocto_stops_at_a_second_dot() {
    assert_eq!(convert_to_yocto("1.2.3"), Some(1_200_000_000_000_000_000_000_000));
    assert_eq!(convert_to_yocto("1.2.x"), Some(1_200_000_000_000_000_000_000_000));
    assert_eq!(convert_to_yocto("1.2."), Some(1_200_000_000_000_000_000_000_000));
}

#[test]
fn convert_to_yocto_refuses_what_is_no_number() {
    let texts =
        ["", ".", "1.", ".5", "abc", "1,5", "-1", "+", "1.-5", " 1", "1 ", "1..5", "0x10", "１"];
    for text in texts {
        assert_eq!(convert_to_yocto(text), None, "{:?}", text);
    }
}

#[test]
fn convert_to_yocto_refuses_a_fraction_finer_than_the_unit() {
    assert_eq!(convert_to_yocto("0.0000000000000000000000001"), None);
    assert_eq!(convert_to_yocto("0.0000000000000000000000000"), None);
}

#[test]
fn convert_to_yocto_at_the_limit_of_128_bits() {
    assert_eq!(convert_to_yocto("340282366920938.463463374607431768211455"), Some(u128::MAX));
    assert_eq!(convert_to_yocto("340282366920938.463463374607431768211456"), None);
    assert_eq!(convert_to_yocto("340282366920939"), None);
    assert_eq!(convert_to_yocto("340282366920938463463374607431768211456"), None);
    assert_eq!(convert_to_yocto("0.340282366920938463463374607431768211456"), None);
}

#[test]
fn same_text_compares_texts() {
    assert!(same_text("", ""));
    assert!(same_text("ft_staking", "ft_staking"));
    assert!(!same_text("ft_staking", "ft_stakin"));
    assert!(!same_text("ft_staking", "ft_stakinG"));
    assert!(!same_text("a", ""));
    assert!(same_text("неар", "неар"));
    assert!(!same_text("неар", "неаp"));
}
