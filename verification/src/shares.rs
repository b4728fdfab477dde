//! How many pool shares a deposit earns.
//!
//! The first deposit sets the scale: it earns the geometric mean of its two
//! amounts, or the larger amount where one of them is zero. Every later
//! deposit earns in proportion to what the vaults already hold, by the side
//! on which it adds least.

use vstd::prelude::*;
use crate::error::CLMMError;
use crate::utils::sqrt::{
    floor_sqrt, integer_sqrt, is_floor_sqrt, lemma_floor_sqrt_exists,
};

verus! {

/// Shares for the first deposit into a pool.
pub open spec fn bootstrap_shares(amount_a: nat, amount_b: nat) -> nat {
    if amount_a > 0 && amount_b > 0 {
        floor_sqrt(amount_a * amount_b)
    } else if amount_a >= amount_b {
        amount_a
    } else {
        amount_b
    }
}

/// Shares that `amount` earns against a vault holding `balance` while
/// `total` shares are in circulation; nothing against an empty vault.
pub open spec fn share_from(amount: nat, total: nat, balance: nat) -> nat {
    if balance > 0 {
        amount * total / balance
    } else {
        0
    }
}

/// Shares for a deposit into a pool that has issued shares before.
pub open spec fn proportional_shares(
    amount_a: nat,
    amount_b: nat,
    total: nat,
    balance_a: nat,
    balance_b: nat,
) -> nat {
    let from_a = share_from(amount_a, total, balance_a);
    let from_b = share_from(amount_b, total, balance_b);
    if from_a <= from_b {
        from_a
    } else {
        from_b
    }
}

/// The number of shares to mint for a deposit, or why none can be minted.
pub open spec fn lp_shares(
    total: nat,
    amount_a: nat,
    amount_b: nat,
    balance_a: nat,
    balance_b: nat,
) -> Result<u64, CLMMError> {
    if total == 0 {
        Ok(bootstrap_shares(amount_a, amount_b) as u64)
    } else if balance_a == 0 && balance_b == 0 {
        Err(CLMMError::PoolEmpty)
    } else if proportional_shares(amount_a, amount_b, total, balance_a, balance_b) > u64::MAX {
        Err(CLMMError::ArithmeticOverflow)
    } else {
        Ok(proportional_shares(amount_a, amount_b, total, balance_a, balance_b) as u64)
    }
}

/// The shares of a first deposit of 64-bit amounts fit 64 bits.
pub proof fn lemma_bootstrap_shares_fit(amount_a: nat, amount_b: nat)
    requires
        amount_a <= u64::MAX,
        amount_b <= u64::MAX,
    ensures
        bootstrap_shares(amount_a, amount_b) <= u64::MAX,
{
    if amount_a > 0 && amount_b > 0 {
        let product = amount_a * amount_b;
        let root = floor_sqrt(product);
        lemma_floor_sqrt_exists(product);
        assert(root <= 0xffff_ffff_ffff_ffffnat) by (nonlinear_arith)
            requires
                root * root <= product,
                product == amount_a * amount_b,
                amount_a <= 0xffff_ffff_ffff_ffffnat,
                amount_b <= 0xffff_ffff_ffff_ffffnat,
        {
            assert(amount_a * amount_b <= 0xffff_ffff_ffff_ffffnat * 0xffff_ffff_ffff_ffffnat);
            if root >= 0x1_0000_0000_0000_0000nat {
                assert(root * root >= 0x1_0000_0000_0000_0000nat * 0x1_0000_0000_0000_0000nat);
            }
        }
    }
}

/// A first deposit with both amounts above zero earns the integer part of
/// their geometric mean.
pub proof fn lemma_bootstrap_is_geometric_mean(amount_a: u64, amount_b: u64)
    requires
        amount_a > 0,
        amount_b > 0,
    ensures
        lp_shares(0, amount_a as nat, amount_b as nat, 0, 0) matches Ok(minted) && is_floor_sqrt(
            (amount_a * amount_b) as nat,
            minted as nat,
        ),
{
    lemma_bootstrap_shares_fit(amount_a as nat, amount_b as nat);
    lemma_floor_sqrt_exists((amount_a * amount_b) as nat);
}

/// A first deposit on one side only earns exactly the amount deposited.
pub proof fn lemma_bootstrap_single_sided(amount: u64)
    ensures
        lp_shares(0, amount as nat, 0, 0, 0) == Ok::<u64, CLMMError>(amount),
        lp_shares(0, 0, amount as nat, 0, 0) == Ok::<u64, CLMMError>(amount),
{
}

/// A later deposit never earns a larger part of the supply than the part it
/// adds to either vault.
pub proof fn lemma_proportional_shares_bounded(
    total: nat,
    amount_a: nat,
    amount_b: nat,
    balance_a: nat,
    balance_b: nat,
)
    requires
        total > 0,
        lp_shares(total, amount_a, amount_b, balance_a, balance_b) is Ok,
    ensures
        lp_shares(total, amount_a, amount_b, balance_a, balance_b)->Ok_0 * balance_a <= amount_a
            * total,
        lp_shares(total, amount_a, amount_b, balance_a, balance_b)->Ok_0 * balance_b <= amount_b
            * total,
{
    let minted = proportional_shares(amount_a, amount_b, total, balance_a, balance_b);
    if balance_a > 0 {
        let from_a = share_from(amount_a, total, balance_a);
        assert(from_a * balance_a <= amount_a * total) by (nonlinear_arith)
            requires
                balance_a > 0,
                from_a == amount_a * total / balance_a,
        ;
        assert(minted * balance_a <= from_a * balance_a) by (nonlinear_arith)
            requires
                minted <= from_a,
        ;
    } else {
        assert(minted * balance_a == 0) by (nonlinear_arith)
            requires
                balance_a == 0,
        ;
        assert(amount_a * total >= 0) by (nonlinear_arith);
    }
    if balance_b > 0 {
        let from_b = share_from(amount_b, total, balance_b);
        assert(from_b * balance_b <= amount_b * total) by (nonlinear_arith)
            requires
                balance_b > 0,
                from_b == amount_b * total / balance_b,
        ;
        assert(minted * balance_b <= from_b * balance_b) by (nonlinear_arith)
            requires
                minted <= from_b,
        ;
    } else {
        assert(minted * balance_b == 0) by (nonlinear_arith)
            requires
                balance_b == 0,
        ;
        assert(amount_b * total >= 0) by (nonlinear_arith);
    }
}

/// A pool that has issued shares and holds nothing cannot price a deposit.
pub proof fn lemma_empty_pool_rejected(total: nat, amount_a: nat, amount_b: nat)
    requires
        total > 0,
    ensures
        lp_shares(total, amount_a, amount_b, 0, 0) == Err::<u64, CLMMError>(CLMMError::PoolEmpty),
{
}

/// `amount * total / balance`, computed in 128 bits.
fn share_of(amount: u64, total: u64, balance: u64) -> (share: u128)
    ensures
        share == share_from(amount as nat, total as nat, balance as nat),
{
    if balance > 0 {
        assert(amount * total <= u128::MAX) by (nonlinear_arith)
            requires
                amount <= 0xffff_ffff_ffff_ffffu64,
                total <= 0xffff_ffff_ffff_ffffu64,
        ;
        (amount as u128) * (total as u128) / (balance as u128)
    } else {
        0
    }
}

/// Returns the number of pool shares to mint for a deposit of `amount_a` and
/// `amount_b` into a pool with `total_lp_issued` shares in circulation and
/// the given vault balances.
///
/// Fails with `PoolEmpty` where shares are in circulation and both vaults are
/// empty, and with `ArithmeticOverflow` where the shares do not fit 64 bits.
pub fn lp_shares_for_deposit(
    total_lp_issued: u64,
    amount_a: u64,
    amount_b: u64,
    pool_balance_a: u64,
    pool_balance_b: u64,
) -> (result: Result<u64, CLMMError>)
    ensures
        result == lp_shares(
            total_lp_issued as nat,
            amount_a as nat,
            amount_b as nat,
            pool_balance_a as nat,
            pool_balance_b as nat,
        ),
{
    if total_lp_issued == 0 {
        if amount_a > 0 && amount_b > 0 {
            assert(amount_a * amount_b <= u128::MAX) by (nonlinear_arith)
                requires
                    amount_a <= 0xffff_ffff_ffff_ffffu64,
                    amount_b <= 0xffff_ffff_ffff_ffffu64,
            ;
            let product: u128 = (amount_a as u128) * (amount_b as u128);
            let root = integer_sqrt(product);
            Ok(root as u64)
        } else if amount_a >= amount_b {
            Ok(amount_a)
        } else {
            Ok(amount_b)
        }
    } else {
        if pool_balance_a == 0 && pool_balance_b == 0 {
            return Err(CLMMError::PoolEmpty);
        }
        let from_a = share_of(amount_a, total_lp_issued, pool_balance_a);
        let from_b = share_of(amount_b, total_lp_issued, pool_balance_b);
        let minted = if from_a <= from_b {
            from_a
        } else {
            from_b
        };
        if minted > u64::MAX as u128 {
            Err(CLMMError::ArithmeticOverflow)
        } else {
            Ok(minted as u64)
        }
    }
}

} // verus!
