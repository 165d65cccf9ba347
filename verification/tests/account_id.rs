use zml_staking::AccountId;

#[test]
fn parses_valid_names() {
    for name in [
        "aa",
        "a-a",
        "a-aa",
        "100",
        "0o",
        "com",
        "near",
        "b-o_w_e-n",
        "b.owen",
        "a.ha",
        "over.9000",
        "illia.cheapaccounts.near",
        "10-4.8-2",
        "near.a",
        "a.a",
        "0123456789012345678901234567890123456789012345678901234567890123",
    ] {
        let id = AccountId::parse(name);
        assert!(id.is_some(), "{}", name);
        assert_eq!(id.unwrap().as_str(), name);
    }
}

#[test]
fn refuses_invalid_names() {
    for name in [
        "",
        "a",
        "A",
        "Abc",
        "-near",
        "near-",
        "-near-",
        "near.",
        ".near",
        "near@",
        "@near",
        "неар",
        "0__0",
        "0_-_0",
        "..",
        "a..near",
        "nEar",
        "_bowen",
        "hello world",
        "01234567890123456789012345678901234567890123456789012345678901234",
        "some-complex-address@gmail.com",
    ] {
        assert!(AccountId::parse(name).is_none(), "{}", name);
    }
}

#[test]
fn equal_names_are_equal_accounts() {
    let a = AccountId::parse("alice.near").unwrap();
    let b = AccountId::parse("alice.near").unwrap();
    let c = AccountId::parse("bob.near").unwrap();
    assert_eq!(a, b);
    assert_ne!(a, c);
    assert_eq!(a.clone(), a);
}
