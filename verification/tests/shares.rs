use clmm::error::CLMMError;
use clmm::shares::lp_shares_for_deposit;

#[test]
fn first_deposit_mints_the_geometric_mean() {
    assert_eq!(lp_shares_for_deposit(0, 1000, 4000, 0, 0), Ok(2000));
    assert_eq!(lp_shares_for_deposit(0, 4000, 1000, 0, 0), Ok(2000));
    assert_eq!(lp_shares_for_deposit(0, 2, 3, 0, 0), Ok(2));
    assert_eq!(lp_shares_for_deposit(0, 1, 1, 0, 0), Ok(1));
    assert_eq!(lp_shares_for_deposit(0, u64::MAX, u64::MAX, 0, 0), Ok(u64::MAX));
    assert_eq!(lp_shares_for_deposit(0, u64::MAX, 1, 0, 0), Ok(4294967295));
}

#[test]
fn first_deposit_ignores_the_vaults() {
    assert_eq!(lp_shares_for_deposit(0, 1000, 4000, 7, 9), Ok(2000));
}

#[test]
fn first_deposit_on_one_side_mints_the_amount() {
    assert_eq!(lp_shares_for_deposit(0, 500, 0, 0, 0), Ok(500));
    assert_eq!(lp_shares_for_deposit(0, 0, 500, 0, 0), Ok(500));
    assert_eq!(lp_shares_for_deposit(0, 0, 0, 0, 0), Ok(0));
    assert_eq!(lp_shares_for_deposit(0, u64::MAX, 0, 0, 0), Ok(u64::MAX));
}

#[test]
fn later_deposit_mints_by_the_smaller_side() {
    assert_eq!(lp_shares_for_deposit(1000, 10, 10, 100, 200), Ok(50));
    assert_eq!(lp_shares_for_deposit(1000, 10, 10, 200, 100), Ok(50));
    assert_eq!(lp_shares_for_deposit(1000, 10, 20, 100, 200), Ok(100));
    assert_eq!(lp_shares_for_deposit(1000, 1, 1, 3, 3), Ok(333));
}

#[test]
fn later_deposit_against_one_empty_vault_mints_nothing() {
    assert_eq!(lp_shares_for_deposit(1000, 10, 10, 0, 200), Ok(0));
    assert_eq!(lp_shares_for_deposit(1000, 10, 10, 100, 0), Ok(0));
}

#[test]
fn empty_pool_with_supply_is_refused() {
    assert_eq!(lp_shares_for_deposit(1000, 10, 10, 0, 0), Err(CLMMError::PoolEmpty));
    assert_eq!(lp_shares_for_deposit(1, 0, 0, 0, 0), Err(CLMMError::PoolEmpty));
}

#[test]
fn shares_that_do_not_fit_are_refused() {
    assert_eq!(
        lp_shares_for_deposit(u64::MAX, u64::MAX, u64::MAX, 1, 1),
        Err(CLMMError::ArithmeticOverflow)
    );
    assert_eq!(lp_shares_for_deposit(u64::MAX, 1, 1, 1, 1), Ok(u64::MAX));
    assert_eq!(lp_shares_for_deposit(u64::MAX, 2, 2, 1, 1), Err(CLMMError::ArithmeticOverflow));
    assert_eq!(lp_shares_for_deposit(u64::MAX, 2, 1, 1, 1), Ok(u64::MAX));
}
