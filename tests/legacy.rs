use chainsight_management::legacy::{Balance, FixedPointError, FixedPointLedger, Index};

#[test]
fn test_add_index() {
    let mut l = FixedPointLedger::new();
    let delta = 10;
    l.add_total_balance(1_000_000_000_000u128, false).unwrap();
    l.add_index(delta, true).unwrap();
    l.add_total_balance(10, true).unwrap();
    assert_eq!(l.index(), Index(Balance(99_999_999_999)));
    assert_eq!(l.total_balance(), 999_999_999_990u128);
}

#[test]
fn add_index_needs_a_balance() {
    let mut l = FixedPointLedger::new();
    assert_eq!(l.add_index(10, false), Err(FixedPointError::EmptyBalance));
    assert_eq!(l.add_total_balance(1, true), Err(FixedPointError::OutOfRange));
    l.add_total_balance(50, false).unwrap();
    l.add_index(25, false).unwrap();
    assert_eq!(l.index(), Index(Balance(150_000_000_000)));
}

#[test]
fn test_index_as_balance() {
    let index = Index::default();
    let balance: Balance = index.as_balance();
    assert_eq!(balance, Balance(100_000_000_000u128));
}

#[test]
fn test_index_mul() {
    let index = Index::default();
    let balance: Balance = Balance(1);
    assert_eq!(index.mul(balance), balance);
}

#[test]
fn legacy_index_add_and_sub() {
    let index = Index::default();
    assert_eq!(index.add(1), Index(Balance(100_000_000_001u128)));
    assert_eq!(index.sub(1), Index(Balance(99_999_999_999u128)));
}

#[test]
fn test_index_percent() {
    let expected: Index = Index(Balance(50_000_000_000u128));
    assert_eq!(Index::percent(50_000_000_000u128, 100_000_000_000u128), expected);
}

#[test]
fn test_balance_mul() {
    let balance = Balance(100_000_000_000u128);
    let expected: Balance = Balance(50_000_000_000u128); // 1/2
    assert_eq!(balance.mul(Index(Balance(50_000_000_000u128))), expected);
}

#[test]
fn test_balance_div() {
    let balance = Balance(100_000_000_000u128);
    let expected: Balance = Balance(200_000_000_000u128); // 2
    assert_eq!(balance.div(Index(Balance(50_000_000_000u128))), expected);
}
