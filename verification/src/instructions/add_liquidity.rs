//! Adding liquidity to a pool over a range of ticks.
//!
//! A deposit is checked, recorded at its two boundary ticks and in the pool,
//! priced in both tokens, and paid in pool shares. Either all of this
//! happens or nothing changes. The tokens themselves are moved by the caller,
//! who receives the list of transfers to request.

use vstd::prelude::*;
use crate::error::CLMMError;
use crate::ledger::{
    apply_position_open, lemma_opening_moves_net_up_to, net_up_to, opened_above, opened_below,
    position_open_outcome,
};
use crate::shares::{lemma_bootstrap_shares_fit, lp_shares, lp_shares_for_deposit};
use crate::state::{same_mint, MintId, Pool, Tick};
use crate::utils::amounts::{calculate_liquidity_amounts, calculated_amounts};
use crate::utils::price::{sqrt_price_at_tick, tick_in_range, tick_to_sqrt_price_x64};
use crate::utils::sqrt::{is_floor_sqrt, lemma_floor_sqrt_exists};
use crate::utils::TICK_SPACING;

verus! {

/// The records that one deposit works on, as resolved by the caller.
#[derive(Clone, Copy, Debug, PartialEq, Eq)]
pub struct AddLiquidity {
    /// The pool that receives the liquidity.
    pub pool: Pool,
    /// The record of the tick at which the position starts.
    pub tick_lower_account: Tick,
    /// The record of the tick at which the position ends.
    pub tick_upper_account: Tick,
    /// The mint of the token offered as token A.
    pub mint_a: MintId,
    /// The mint of the token offered as token B.
    pub mint_b: MintId,
    /// What the pool's vault for token A holds.
    pub vault_a: u64,
    /// What the pool's vault for token B holds.
    pub vault_b: u64,
}

/// What the caller has to request from the custody service once a deposit is
/// accepted: first the transfers from the depositor to the vaults, signed by
/// the depositor, then the minting of shares, signed by the pool's authority.
#[derive(Clone, Copy, Debug, PartialEq, Eq)]
pub struct CustodyRequests {
    /// Token A to move into the vault; `None` where nothing is owed.
    pub transfer_a: Option<u64>,
    /// Token B to move into the vault; `None` where nothing is owed.
    pub transfer_b: Option<u64>,
    /// Pool shares to mint to the depositor.
    pub mint_lp: u64,
}

/// Both ticks are multiples of the tick spacing.
pub open spec fn ticks_aligned(tick_lower: int, tick_upper: int) -> bool {
    tick_lower % (TICK_SPACING as int) == 0 && tick_upper % (TICK_SPACING as int) == 0
}

/// The first reason, if any, to refuse a request before anything is
/// computed: the ticks are out of order, a tick record is not the one
/// requested, the mints are not the pool's, or a tick is off the grid.
pub open spec fn request_error(ctx: AddLiquidity, tick_lower: int, tick_upper: int) -> Option<
    CLMMError,
> {
    if tick_lower >= tick_upper {
        Some(CLMMError::TickMismatch)
    } else if ctx.tick_lower_account.index != tick_lower || ctx.tick_upper_account.index
        != tick_upper {
        Some(CLMMError::InvalidTickIndex)
    } else if ctx.pool.mint_a != ctx.mint_a || ctx.pool.mint_b != ctx.mint_b {
        Some(CLMMError::InvalidTokenMint)
    } else if !ticks_aligned(tick_lower, tick_upper) {
        Some(CLMMError::UnalignedTick)
    } else {
        None
    }
}

/// The position's range holds the tick `current`: the lower tick is
/// included, the upper is not.
pub open spec fn range_holds(current: int, tick_lower: int, tick_upper: int) -> bool {
    tick_lower <= current < tick_upper
}

/// The active liquidity of a pool at `current` after a position with
/// `liquidity` has opened over the given range.
pub open spec fn active_liquidity_after(
    active: nat,
    current: int,
    tick_lower: int,
    tick_upper: int,
    liquidity: nat,
) -> nat {
    if range_holds(current, tick_lower, tick_upper) {
        active + liquidity
    } else {
        active
    }
}

/// The requests that follow a deposit of the given amounts: no transfer of a
/// zero amount, and always the minting.
pub open spec fn custody_requests(amount_a: u64, amount_b: u64, minted: u64) -> CustodyRequests {
    CustodyRequests {
        transfer_a: if amount_a != 0 {
            Some(amount_a)
        } else {
            None
        },
        transfer_b: if amount_b != 0 {
            Some(amount_b)
        } else {
            None
        },
        mint_lp: minted,
    }
}

/// The bookkeeping part of a deposit: the two tick records and the active
/// liquidity after it, or the first failure among the request checks, the
/// tick nets and the active liquidity.
pub open spec fn recorded_position(
    ctx: AddLiquidity,
    tick_lower: int,
    tick_upper: int,
    liquidity: nat,
) -> Result<(Tick, Tick, u128), CLMMError> {
    let active = active_liquidity_after(
        ctx.pool.active_liquidity as nat,
        ctx.pool.current_tick as int,
        tick_lower,
        tick_upper,
        liquidity,
    );
    match request_error(ctx, tick_lower, tick_upper) {
        Some(e) => Err(e),
        None => match position_open_outcome(
            ctx.tick_lower_account,
            ctx.tick_upper_account,
            tick_lower,
            tick_upper,
            liquidity,
        ) {
            Err(e) => Err(e),
            Ok((lower, upper)) => if active > u128::MAX {
                Err(CLMMError::ArithmeticOverflow)
            } else {
                Ok((lower, upper, active as u128))
            },
        },
    }
}

/// The pricing part of a deposit: the amounts of token A and token B owed at
/// the pool's price, or `PriceOverflow` where a tick has no price, or the
/// failure of the amount calculation.
pub open spec fn deposit_amounts(
    ctx: AddLiquidity,
    tick_lower: int,
    tick_upper: int,
    liquidity: nat,
) -> Result<(u64, u64), CLMMError> {
    if !tick_in_range(tick_lower) || !tick_in_range(tick_upper) {
        Err(CLMMError::PriceOverflow)
    } else {
        calculated_amounts(
            ctx.pool.sqrt_price_x64 as nat,
            sqrt_price_at_tick(tick_lower),
            sqrt_price_at_tick(tick_upper),
            liquidity,
        )
    }
}

/// The supply of pool shares after a deposit of the given amounts and the
/// shares minted for it, or why none can be minted.
pub open spec fn minted_supply(ctx: AddLiquidity, amount_a: u64, amount_b: u64) -> Result<
    (u64, u64),
    CLMMError,
> {
    match lp_shares(
        ctx.pool.total_lp_issued as nat,
        amount_a as nat,
        amount_b as nat,
        ctx.vault_a as nat,
        ctx.vault_b as nat,
    ) {
        Err(e) => Err(e),
        Ok(minted) => if ctx.pool.total_lp_issued + minted > u64::MAX {
            Err(CLMMError::ArithmeticOverflow)
        } else {
            Ok(((ctx.pool.total_lp_issued + minted) as u64, minted))
        },
    }
}

/// What a deposit does: the records after it and the requests to make, or the
/// first failure met on the way through bookkeeping, pricing and minting.
pub open spec fn add_liquidity_outcome(
    ctx: AddLiquidity,
    tick_lower: int,
    tick_upper: int,
    liquidity: nat,
) -> Result<(AddLiquidity, CustodyRequests), CLMMError> {
    match recorded_position(ctx, tick_lower, tick_upper, liquidity) {
        Err(e) => Err(e),
        Ok((lower, upper, active)) => match deposit_amounts(
            ctx,
            tick_lower,
            tick_upper,
            liquidity,
        ) {
            Err(e) => Err(e),
            Ok((amount_a, amount_b)) => match minted_supply(ctx, amount_a, amount_b) {
                Err(e) => Err(e),
                Ok((supply, minted)) => Ok(
                    (
                        AddLiquidity {
                            pool: Pool {
                                mint_a: ctx.pool.mint_a,
                                mint_b: ctx.pool.mint_b,
                                sqrt_price_x64: ctx.pool.sqrt_price_x64,
                                current_tick: ctx.pool.current_tick,
                                active_liquidity: active,
                                total_lp_issued: supply,
                            },
                            tick_lower_account: lower,
                            tick_upper_account: upper,
                            mint_a: ctx.mint_a,
                            mint_b: ctx.mint_b,
                            vault_a: ctx.vault_a,
                            vault_b: ctx.vault_b,
                        },
                        custody_requests(amount_a, amount_b, minted),
                    ),
                ),
            },
        },
    }
}

/// Ticks that are out of order are refused before anything else is looked
/// at.
pub proof fn lemma_unordered_ticks_rejected(
    ctx: AddLiquidity,
    tick_lower: int,
    tick_upper: int,
    liquidity: nat,
)
    requires
        tick_lower >= tick_upper,
    ensures
        add_liquidity_outcome(ctx, tick_lower, tick_upper, liquidity) == Err::<
            (AddLiquidity, CustodyRequests),
            CLMMError,
        >(CLMMError::TickMismatch),
{
}

/// A request whose ticks are in order and whose records and mints are the
/// right ones is refused as unaligned where either tick is off the grid,
/// whatever the liquidity and the state of the pool.
pub proof fn lemma_unaligned_tick_rejected(
    ctx: AddLiquidity,
    tick_lower: int,
    tick_upper: int,
    liquidity: nat,
)
    requires
        tick_lower < tick_upper,
        ctx.tick_lower_account.index == tick_lower,
        ctx.tick_upper_account.index == tick_upper,
        ctx.pool.mint_a == ctx.mint_a,
        ctx.pool.mint_b == ctx.mint_b,
        tick_lower % (TICK_SPACING as int) != 0 || tick_upper % (TICK_SPACING as int) != 0,
    ensures
        add_liquidity_outcome(ctx, tick_lower, tick_upper, liquidity) == Err::<
            (AddLiquidity, CustodyRequests),
            CLMMError,
        >(CLMMError::UnalignedTick),
{
}

/// A deposit whose range does not hold the current tick leaves the active
/// liquidity as it was, and still records itself at both boundary ticks.
pub proof fn lemma_inactive_range_keeps_active_liquidity(
    ctx: AddLiquidity,
    tick_lower: int,
    tick_upper: int,
    liquidity: nat,
)
    requires
        !range_holds(ctx.pool.current_tick as int, tick_lower, tick_upper),
    ensures
        match add_liquidity_outcome(ctx, tick_lower, tick_upper, liquidity) {
            Ok((next, _)) => {
                &&& next.pool.active_liquidity == ctx.pool.active_liquidity
                &&& next.tick_lower_account == opened_below(ctx.tick_lower_account, liquidity)
                &&& next.tick_upper_account == opened_above(ctx.tick_upper_account, liquidity)
                &&& next.tick_lower_account.liquidity_net == ctx.tick_lower_account.liquidity_net
                    + liquidity
                &&& next.tick_upper_account.liquidity_net == ctx.tick_upper_account.liquidity_net
                    - liquidity
            },
            Err(_) => true,
        },
{
}

/// A deposit whose range holds the current tick raises the active liquidity
/// by exactly its own.
pub proof fn lemma_active_range_raises_active_liquidity(
    ctx: AddLiquidity,
    tick_lower: int,
    tick_upper: int,
    liquidity: nat,
)
    requires
        range_holds(ctx.pool.current_tick as int, tick_lower, tick_upper),
    ensures
        match add_liquidity_outcome(ctx, tick_lower, tick_upper, liquidity) {
            Ok((next, _)) => next.pool.active_liquidity == ctx.pool.active_liquidity + liquidity,
            Err(_) => true,
        },
{
}

/// No deposit is accepted by a pool that has issued shares and whose vaults
/// are both empty: a request that passes bookkeeping and pricing fails with
/// `PoolEmpty`.
pub proof fn lemma_empty_pool_accepts_nothing(
    ctx: AddLiquidity,
    tick_lower: int,
    tick_upper: int,
    liquidity: nat,
)
    requires
        ctx.pool.total_lp_issued > 0,
        ctx.vault_a == 0,
        ctx.vault_b == 0,
    ensures
        add_liquidity_outcome(ctx, tick_lower, tick_upper, liquidity) is Err,
        recorded_position(ctx, tick_lower, tick_upper, liquidity) is Ok && deposit_amounts(
            ctx,
            tick_lower,
            tick_upper,
            liquidity,
        ) is Ok ==> add_liquidity_outcome(ctx, tick_lower, tick_upper, liquidity) == Err::<
            (AddLiquidity, CustodyRequests),
            CLMMError,
        >(CLMMError::PoolEmpty),
{
}

/// The first deposit into a pool, where it owes both tokens, is paid the
/// integer part of the geometric mean of the two amounts; where it owes one
/// token only, it is paid that amount.
pub proof fn lemma_first_deposit_shares(
    ctx: AddLiquidity,
    tick_lower: int,
    tick_upper: int,
    liquidity: nat,
)
    requires
        ctx.pool.total_lp_issued == 0,
        recorded_position(ctx, tick_lower, tick_upper, liquidity) is Ok,
        deposit_amounts(ctx, tick_lower, tick_upper, liquidity) is Ok,
    ensures
        ({
            let (amount_a, amount_b) = deposit_amounts(
                ctx,
                tick_lower,
                tick_upper,
                liquidity,
            )->Ok_0;
            &&& add_liquidity_outcome(ctx, tick_lower, tick_upper, liquidity) matches Ok(
                (next, requests),
            )
            &&& requests == custody_requests(amount_a, amount_b, requests.mint_lp)
            &&& next.pool.total_lp_issued == requests.mint_lp
            &&& amount_a > 0 && amount_b > 0 ==> is_floor_sqrt(
                (amount_a * amount_b) as nat,
                requests.mint_lp as nat,
            )
            &&& amount_b == 0 ==> requests.mint_lp == amount_a
            &&& amount_a == 0 ==> requests.mint_lp == amount_b
        }),
{
    let (amount_a, amount_b) = deposit_amounts(ctx, tick_lower, tick_upper, liquidity)->Ok_0;
    lemma_bootstrap_shares_fit(amount_a as nat, amount_b as nat);
    lemma_floor_sqrt_exists((amount_a * amount_b) as nat);
}

/// An accepted deposit changes nothing of the pool but its active liquidity
/// and its supply, and nothing of a tick record but its net.
pub proof fn lemma_deposit_keeps_identity(
    ctx: AddLiquidity,
    tick_lower: int,
    tick_upper: int,
    liquidity: nat,
)
    ensures
        match add_liquidity_outcome(ctx, tick_lower, tick_upper, liquidity) {
            Ok((next, _)) => {
                &&& next.pool.mint_a == ctx.pool.mint_a
                &&& next.pool.mint_b == ctx.pool.mint_b
                &&& next.pool.sqrt_price_x64 == ctx.pool.sqrt_price_x64
                &&& next.pool.current_tick == ctx.pool.current_tick
                &&& next.pool.well_formed() == ctx.pool.well_formed()
                &&& next.tick_lower_account.index == tick_lower
                &&& next.tick_upper_account.index == tick_upper
                &&& next.mint_a == ctx.mint_a
                &&& next.mint_b == ctx.mint_b
                &&& next.vault_a == ctx.vault_a
                &&& next.vault_b == ctx.vault_b
            },
            Err(_) => true,
        },
{
}

/// Where the pool's active liquidity was the sum of the nets up to the
/// current tick before a deposit, it is so after it: the two tick records of
/// the deposit may stand anywhere in the ledger `ticks`.
pub proof fn lemma_active_liquidity_tracks_ledger(
    ctx: AddLiquidity,
    tick_lower: int,
    tick_upper: int,
    liquidity: nat,
    ticks: Seq<Tick>,
    lower_at: int,
    upper_at: int,
)
    requires
        0 <= lower_at < ticks.len(),
        0 <= upper_at < ticks.len(),
        ticks[lower_at] == ctx.tick_lower_account,
        ticks[upper_at] == ctx.tick_upper_account,
        ctx.pool.active_liquidity == net_up_to(ticks, ctx.pool.current_tick as int),
        add_liquidity_outcome(ctx, tick_lower, tick_upper, liquidity) is Ok,
    ensures
        ({
            let next = add_liquidity_outcome(ctx, tick_lower, tick_upper, liquidity)->Ok_0.0;
            next.pool.active_liquidity == net_up_to(
                ticks.update(lower_at, next.tick_lower_account).update(
                    upper_at,
                    next.tick_upper_account,
                ),
                next.pool.current_tick as int,
            )
        }),
{
    lemma_opening_moves_net_up_to(
        ticks,
        (lower_at, upper_at, liquidity),
        ctx.pool.current_tick as int,
    );
}

/// Adds `liquidity` to the pool over the ticks `tick_lower..tick_upper`.
///
/// On success the two tick records and the pool are updated and the requests
/// for the custody service are returned. On failure nothing is changed. The
/// checks come in this order:
///
/// 1. `TickMismatch` unless `tick_lower < tick_upper`;
/// 2. `InvalidTickIndex` unless the two records are those of the two ticks;
/// 3. `InvalidTokenMint` unless the mints are the pool's;
/// 4. `UnalignedTick` unless both ticks are multiples of `TICK_SPACING`;
/// 5. `ArithmeticOverflow` where a tick net or the active liquidity leaves
///    its range;
/// 6. `PriceOverflow` where a tick has no square-root price;
/// 7. `ArithmeticOverflow` where a token amount does not fit 64 bits;
/// 8. `PoolEmpty` where shares are in circulation and both vaults are empty;
/// 9. `ArithmeticOverflow` where the shares or the new supply do not fit 64
///    bits.
pub fn add_liquidity(
    ctx: &mut AddLiquidity,
    tick_lower: i32,
    tick_upper: i32,
    liquidity: u128,
) -> (result: Result<CustodyRequests, CLMMError>)
    ensures
        match add_liquidity_outcome(
            *old(ctx),
            tick_lower as int,
            tick_upper as int,
            liquidity as nat,
        ) {
            Ok((next, requests)) => result == Ok::<CustodyRequests, CLMMError>(requests)
                && *final(ctx) == next,
            Err(e) => result == Err::<CustodyRequests, CLMMError>(e) && *final(ctx) == *old(ctx),
        },
{
    if tick_lower >= tick_upper {
        return Err(CLMMError::TickMismatch);
    }
    if ctx.tick_lower_account.index != tick_lower || ctx.tick_upper_account.index != tick_upper {
        return Err(CLMMError::InvalidTickIndex);
    }
    if !same_mint(&ctx.pool.mint_a, &ctx.mint_a) || !same_mint(&ctx.pool.mint_b, &ctx.mint_b) {
        return Err(CLMMError::InvalidTokenMint);
    }
    if tick_lower % TICK_SPACING != 0 || tick_upper % TICK_SPACING != 0 {
        return Err(CLMMError::UnalignedTick);
    }
    let mut lower = ctx.tick_lower_account;
    let mut upper = ctx.tick_upper_account;
    match apply_position_open(&mut lower, &mut upper, tick_lower, tick_upper, liquidity) {
        Ok(()) => {},
        Err(e) => { return Err(e); },
    }
    let active = if ctx.pool.current_tick >= tick_lower && ctx.pool.current_tick < tick_upper {
        match ctx.pool.active_liquidity.checked_add(liquidity) {
            Some(sum) => sum,
            None => { return Err(CLMMError::ArithmeticOverflow); },
        }
    } else {
        ctx.pool.active_liquidity
    };
    let sqrt_price_lower = match tick_to_sqrt_price_x64(tick_lower) {
        Ok(price) => price,
        Err(e) => { return Err(e); },
    };
    let sqrt_price_upper = match tick_to_sqrt_price_x64(tick_upper) {
        Ok(price) => price,
        Err(e) => { return Err(e); },
    };
    let (amount_a, amount_b) = match calculate_liquidity_amounts(
        ctx.pool.sqrt_price_x64,
        sqrt_price_lower,
        sqrt_price_upper,
        liquidity,
    ) {
        Ok(amounts) => amounts,
        Err(e) => { return Err(e); },
    };
    let minted = match lp_shares_for_deposit(
        ctx.pool.total_lp_issued,
        amount_a,
        amount_b,
        ctx.vault_a,
        ctx.vault_b,
    ) {
        Ok(shares) => shares,
        Err(e) => { return Err(e); },
    };
    let supply = match ctx.pool.total_lp_issued.checked_add(minted) {
        Some(sum) => sum,
        None => { return Err(CLMMError::ArithmeticOverflow); },
    };
    ctx.tick_lower_account = lower;
    ctx.tick_upper_account = upper;
    ctx.pool.active_liquidity = active;
    ctx.pool.total_lp_issued = supply;
    Ok(
        CustodyRequests {
            transfer_a: if amount_a != 0 {
                Some(amount_a)
            } else {
                None
            },
            transfer_b: if amount_b != 0 {
                Some(amount_b)
            } else {
                None
            },
            mint_lp: minted,
        },
    )
}

} // verus!
