use clmm::state::{mint_comes_before, same_mint, Pool};
use clmm::utils::tick_factors::Q64;
use clmm::utils::tick_to_sqrt_price_x64;

fn pool_at(tick: i32, sqrt_price_x64: u128) -> Pool {
    Pool {
        mint_a: [1; 32],
        mint_b: [2; 32],
        sqrt_price_x64,
        current_tick: tick,
        active_liquidity: 0,
        total_lp_issued: 0,
    }
}

#[test]
fn mints_are_compared_byte_by_byte() {
    let first = [7u8; 32];
    let mut second = [7u8; 32];
    assert!(same_mint(&first, &second));
    second[31] = 8;
    assert!(!same_mint(&first, &second));
    second[31] = 7;
    second[0] = 0;
    assert!(!same_mint(&first, &second));
}

#[test]
fn mints_are_ordered_by_their_first_difference() {
    let low = [7u8; 32];
    let mut high = [7u8; 32];
    assert!(!mint_comes_before(&low, &high));
    high[31] = 8;
    assert!(mint_comes_before(&low, &high));
    assert!(!mint_comes_before(&high, &low));
    high[3] = 6;
    assert!(!mint_comes_before(&low, &high));
    assert!(mint_comes_before(&high, &low));
}

#[test]
fn pool_is_well_formed_where_tick_holds_price() {
    assert!(pool_at(0, Q64).is_well_formed());
    assert!(pool_at(0, Q64 + 5).is_well_formed());
    assert!(!pool_at(1, Q64).is_well_formed());
    assert!(!pool_at(-1, Q64).is_well_formed());
    assert!(pool_at(-1, Q64 - 1).is_well_formed());
    let price = tick_to_sqrt_price_x64(250).unwrap();
    assert!(pool_at(250, price).is_well_formed());
    assert!(!pool_at(250, price - 1).is_well_formed());
    assert!(pool_at(249, price - 1).is_well_formed());
}

#[test]
fn pool_is_not_well_formed_off_the_price_range() {
    assert!(!pool_at(0, 0).is_well_formed());
    assert!(!pool_at(443636, u128::MAX).is_well_formed());
    assert!(!pool_at(-443636, 4295048015).is_well_formed());
    assert!(pool_at(-443636, 4295048016).is_well_formed());
}

#[test]
fn pool_is_not_well_formed_with_mints_out_of_order() {
    let mut pool = pool_at(0, Q64);
    pool.mint_a = [2; 32];
    assert!(!pool.is_well_formed());
    pool.mint_b = [3; 32];
    assert!(pool.is_well_formed());
}
