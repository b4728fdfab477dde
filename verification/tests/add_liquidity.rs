use clmm::error::CLMMError;
use clmm::instructions::{add_liquidity, AddLiquidity, CustodyRequests};
use clmm::state::{Pool, Tick};
use clmm::utils::tick_factors::Q64;
use clmm::utils::{tick_to_sqrt_price_x64, TICK_SPACING};

const MINT_A: [u8; 32] = [1; 32];
const MINT_B: [u8; 32] = [2; 32];

fn fresh(tick_lower: i32, tick_upper: i32) -> AddLiquidity {
    AddLiquidity {
        pool: Pool {
            mint_a: MINT_A,
            mint_b: MINT_B,
            sqrt_price_x64: Q64,
            current_tick: 0,
            active_liquidity: 0,
            total_lp_issued: 0,
        },
        tick_lower_account: Tick { index: tick_lower, liquidity_net: 0 },
        tick_upper_account: Tick { index: tick_upper, liquidity_net: 0 },
        mint_a: MINT_A,
        mint_b: MINT_B,
        vault_a: 0,
        vault_b: 0,
    }
}

#[test]
fn tick_spacing_is_ten() {
    assert_eq!(TICK_SPACING, 10);
}

#[test]
fn first_deposit_around_the_price() {
    let mut ctx = fresh(-100, 100);
    let requests = add_liquidity(&mut ctx, -100, 100, 1_000_000_000_000);
    assert_eq!(
        requests,
        Ok(CustodyRequests {
            transfer_a: Some(4987272070),
            transfer_b: Some(4987272070),
            mint_lp: 4987272070,
        })
    );
    assert_eq!(ctx.tick_lower_account, Tick { index: -100, liquidity_net: 1_000_000_000_000 });
    assert_eq!(ctx.tick_upper_account, Tick { index: 100, liquidity_net: -1_000_000_000_000 });
    assert_eq!(ctx.pool.active_liquidity, 1_000_000_000_000);
    assert_eq!(ctx.pool.total_lp_issued, 4987272070);
    assert_eq!(ctx.pool.sqrt_price_x64, Q64);
    assert_eq!(ctx.pool.current_tick, 0);
    assert_eq!(ctx.pool.mint_a, MINT_A);
    assert_eq!(ctx.pool.mint_b, MINT_B);
}

#[test]
fn second_deposit_is_proportional() {
    let mut ctx = fresh(-100, 100);
    add_liquidity(&mut ctx, -100, 100, 1_000_000_000_000).unwrap();
    ctx.vault_a = 4987272070;
    ctx.vault_b = 4987272070;
    let requests = add_liquidity(&mut ctx, -100, 100, 500_000_000_000);
    assert_eq!(
        requests,
        Ok(CustodyRequests {
            transfer_a: Some(2493636035),
            transfer_b: Some(2493636035),
            mint_lp: 2493636035,
        })
    );
    assert_eq!(ctx.tick_lower_account.liquidity_net, 1_500_000_000_000);
    assert_eq!(ctx.tick_upper_account.liquidity_net, -1_500_000_000_000);
    assert_eq!(ctx.pool.active_liquidity, 1_500_000_000_000);
    assert_eq!(ctx.pool.total_lp_issued, 4987272070 + 2493636035);
}

#[test]
fn deposit_above_the_price_is_inactive_and_single_sided() {
    let mut ctx = fresh(200, 300);
    ctx.pool.active_liquidity = 42;
    let requests = add_liquidity(&mut ctx, 200, 300, 1_000_000_000_000);
    assert_eq!(
        requests,
        Ok(CustodyRequests { transfer_a: Some(4937650353), transfer_b: None, mint_lp: 4937650353 })
    );
    assert_eq!(ctx.pool.active_liquidity, 42);
    assert_eq!(ctx.tick_lower_account.liquidity_net, 1_000_000_000_000);
    assert_eq!(ctx.tick_upper_account.liquidity_net, -1_000_000_000_000);
    assert_eq!(ctx.pool.total_lp_issued, 4937650353);
}

#[test]
fn deposit_below_the_price_is_inactive_and_single_sided() {
    let mut ctx = fresh(-300, -200);
    ctx.pool.active_liquidity = 42;
    let requests = add_liquidity(&mut ctx, -300, -200, 1_000_000_000_000);
    assert_eq!(
        requests,
        Ok(CustodyRequests { transfer_a: None, transfer_b: Some(4937650353), mint_lp: 4937650353 })
    );
    assert_eq!(ctx.pool.active_liquidity, 42);
    assert_eq!(ctx.tick_lower_account.liquidity_net, 1_000_000_000_000);
    assert_eq!(ctx.tick_upper_account.liquidity_net, -1_000_000_000_000);
}

#[test]
fn range_includes_its_lower_tick_and_not_its_upper() {
    let mut ctx = fresh(0, 10);
    add_liquidity(&mut ctx, 0, 10, 1000).unwrap();
    assert_eq!(ctx.pool.active_liquidity, 1000);

    let mut ctx = fresh(-10, 0);
    add_liquidity(&mut ctx, -10, 0, 1000).unwrap();
    assert_eq!(ctx.pool.active_liquidity, 0);
    assert_eq!(ctx.tick_lower_account.liquidity_net, 1000);
    assert_eq!(ctx.tick_upper_account.liquidity_net, -1000);
}

#[test]
fn deposit_of_nothing_asks_for_no_transfer() {
    let mut ctx = fresh(-100, 100);
    let requests = add_liquidity(&mut ctx, -100, 100, 0);
    assert_eq!(requests, Ok(CustodyRequests { transfer_a: None, transfer_b: None, mint_lp: 0 }));
    assert_eq!(ctx, fresh(-100, 100));
}

#[test]
fn unaligned_lower_tick_is_refused() {
    let mut ctx = fresh(7, 20);
    assert_eq!(add_liquidity(&mut ctx, 7, 20, 1000), Err(CLMMError::UnalignedTick));
    assert_eq!(ctx, fresh(7, 20));
    for liquidity in [0, 1, u128::MAX] {
        let mut ctx = fresh(7, 4000);
        ctx.pool.total_lp_issued = 9;
        ctx.pool.active_liquidity = u128::MAX;
        assert_eq!(add_liquidity(&mut ctx, 7, 4000, liquidity), Err(CLMMError::UnalignedTick));
    }
}

#[test]
fn unaligned_upper_or_negative_tick_is_refused() {
    let mut ctx = fresh(10, 25);
    assert_eq!(add_liquidity(&mut ctx, 10, 25, 1000), Err(CLMMError::UnalignedTick));
    let mut ctx = fresh(-7, 10);
    assert_eq!(add_liquidity(&mut ctx, -7, 10, 1000), Err(CLMMError::UnalignedTick));
    let mut ctx = fresh(-20, -3);
    assert_eq!(add_liquidity(&mut ctx, -20, -3, 1000), Err(CLMMError::UnalignedTick));
}

#[test]
fn equal_ticks_are_refused() {
    let mut ctx = fresh(100, 100);
    assert_eq!(add_liquidity(&mut ctx, 100, 100, 1000), Err(CLMMError::TickMismatch));
    assert_eq!(ctx, fresh(100, 100));
}

#[test]
fn ticks_out_of_order_are_refused_first() {
    let mut ctx = fresh(0, 0);
    ctx.mint_a = MINT_B;
    assert_eq!(add_liquidity(&mut ctx, 107, 93, 1000), Err(CLMMError::TickMismatch));
}

#[test]
fn record_of_the_wrong_tick_is_refused() {
    let mut ctx = fresh(-100, 100);
    assert_eq!(add_liquidity(&mut ctx, -110, 100, 1000), Err(CLMMError::InvalidTickIndex));
    assert_eq!(add_liquidity(&mut ctx, -100, 110, 1000), Err(CLMMError::InvalidTickIndex));
    assert_eq!(ctx, fresh(-100, 100));
}

#[test]
fn foreign_mint_is_refused() {
    let mut ctx = fresh(-100, 100);
    ctx.mint_a = [3; 32];
    assert_eq!(add_liquidity(&mut ctx, -100, 100, 1000), Err(CLMMError::InvalidTokenMint));
    let mut ctx = fresh(-100, 100);
    ctx.mint_b[31] = 0;
    assert_eq!(add_liquidity(&mut ctx, -100, 100, 1000), Err(CLMMError::InvalidTokenMint));
    assert_eq!(ctx.tick_lower_account.liquidity_net, 0);
    let mut ctx = fresh(-100, 100);
    ctx.mint_a = MINT_B;
    ctx.mint_b = MINT_A;
    assert_eq!(add_liquidity(&mut ctx, -100, 100, 1000), Err(CLMMError::InvalidTokenMint));
}

#[test]
fn wrong_record_is_reported_before_wrong_mint_and_alignment() {
    let mut ctx = fresh(-100, 100);
    ctx.mint_a = [3; 32];
    assert_eq!(add_liquidity(&mut ctx, -105, 100, 1000), Err(CLMMError::InvalidTickIndex));
    let mut ctx = fresh(-105, 100);
    ctx.mint_a = [3; 32];
    assert_eq!(add_liquidity(&mut ctx, -105, 100, 1000), Err(CLMMError::InvalidTokenMint));
}

#[test]
fn tick_without_a_price_is_refused() {
    let mut ctx = fresh(0, 443640);
    assert_eq!(add_liquidity(&mut ctx, 0, 443640, 1000), Err(CLMMError::PriceOverflow));
    assert_eq!(ctx, fresh(0, 443640));
    let mut ctx = fresh(-443640, 0);
    assert_eq!(add_liquidity(&mut ctx, -443640, 0, 1000), Err(CLMMError::PriceOverflow));
    assert_eq!(ctx, fresh(-443640, 0));
    assert!(tick_to_sqrt_price_x64(443630).is_ok());
    let mut ctx = fresh(-443630, 443630);
    assert!(add_liquidity(&mut ctx, -443630, 443630, 1000).is_ok());
}

#[test]
fn empty_pool_with_supply_refuses_deposits() {
    let mut ctx = fresh(-100, 100);
    ctx.pool.total_lp_issued = 1000;
    let before = ctx;
    assert_eq!(add_liquidity(&mut ctx, -100, 100, 1_000_000), Err(CLMMError::PoolEmpty));
    assert_eq!(ctx, before);
}

#[test]
fn net_overflow_is_refused() {
    let mut ctx = fresh(-100, 100);
    ctx.tick_lower_account.liquidity_net = i128::MAX;
    let before = ctx;
    assert_eq!(add_liquidity(&mut ctx, -100, 100, 1), Err(CLMMError::ArithmeticOverflow));
    assert_eq!(ctx, before);
    let mut ctx = fresh(-100, 100);
    assert_eq!(
        add_liquidity(&mut ctx, -100, 100, u128::MAX),
        Err(CLMMError::ArithmeticOverflow)
    );
    assert_eq!(ctx, fresh(-100, 100));
}

#[test]
fn active_liquidity_overflow_is_refused() {
    let mut ctx = fresh(-100, 100);
    ctx.pool.active_liquidity = u128::MAX;
    let before = ctx;
    assert_eq!(add_liquidity(&mut ctx, -100, 100, 1), Err(CLMMError::ArithmeticOverflow));
    assert_eq!(ctx, before);
    let mut ctx = fresh(200, 300);
    ctx.pool.active_liquidity = u128::MAX;
    assert!(add_liquidity(&mut ctx, 200, 300, 1).is_ok());
    assert_eq!(ctx.pool.active_liquidity, u128::MAX);
}

#[test]
fn amounts_that_do_not_fit_refuse_the_deposit() {
    let mut ctx = fresh(-100, 100);
    assert_eq!(
        add_liquidity(&mut ctx, -100, 100, 1u128 << 100),
        Err(CLMMError::ArithmeticOverflow)
    );
    assert_eq!(ctx, fresh(-100, 100));
}

#[test]
fn supply_overflow_is_refused() {
    let mut ctx = fresh(-100, 100);
    ctx.pool.total_lp_issued = u64::MAX;
    ctx.vault_a = u64::MAX;
    ctx.vault_b = u64::MAX;
    let before = ctx;
    assert_eq!(
        add_liquidity(&mut ctx, -100, 100, 1_000_000_000_000),
        Err(CLMMError::ArithmeticOverflow)
    );
    assert_eq!(ctx, before);
}

#[test]
fn share_overflow_is_refused() {
    let mut ctx = fresh(-100, 100);
    ctx.pool.total_lp_issued = u64::MAX;
    ctx.vault_a = 1;
    ctx.vault_b = 1;
    let before = ctx;
    assert_eq!(
        add_liquidity(&mut ctx, -100, 100, 1_000_000_000_000),
        Err(CLMMError::ArithmeticOverflow)
    );
    assert_eq!(ctx, before);
}
