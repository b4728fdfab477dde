//! Token amounts that back a liquidity position.
//!
//! For a position over the square-root prices `lower..upper`, liquidity `L`
//! is worth `L * (1 / lower - 1 / upper)` of token A while the pool's price
//! is below the range, `L * (upper - lower)` of token B while it is above,
//! and a share of each while it is inside. Prices and their reciprocals are
//! 64.64 fixed-point numbers; every division rounds toward zero.

use vstd::prelude::*;
use vstd::arithmetic::div_mod::lemma_div_is_ordered_by_denominator;
use crate::error::CLMMError;
use crate::utils::tick_factors::Q64;

verus! {

/// `1 / sqrt_price` in 64.64 fixed point, rounded down.
pub open spec fn reciprocal_x64(sqrt_price: nat) -> nat {
    (u128::MAX as nat) / sqrt_price
}

/// `liquidity` times a 64.64 `delta`, rounded down to whole tokens.
pub open spec fn tokens_for(liquidity: nat, delta: nat) -> nat {
    liquidity * delta / (Q64 as nat)
}

/// Token A that backs `liquidity` between two square-root prices.
pub open spec fn token_a_between(lower: nat, upper: nat, liquidity: nat) -> nat {
    tokens_for(liquidity, (reciprocal_x64(lower) - reciprocal_x64(upper)) as nat)
}

/// Token B that backs `liquidity` between two square-root prices.
pub open spec fn token_b_between(lower: nat, upper: nat, liquidity: nat) -> nat {
    tokens_for(liquidity, (upper - lower) as nat)
}

/// The exact amounts of token A and token B for a position, or `None` where
/// the range is inverted or a reciprocal of zero would be needed.
pub open spec fn liquidity_amounts(current: nat, lower: nat, upper: nat, liquidity: nat) -> Option<
    (nat, nat),
> {
    if lower > upper {
        None
    } else if current <= lower {
        if lower == 0 {
            None
        } else {
            Some((token_a_between(lower, upper, liquidity), 0))
        }
    } else if current >= upper {
        Some((0, token_b_between(lower, upper, liquidity)))
    } else {
        Some(
            (
                token_a_between(current, upper, liquidity),
                token_b_between(lower, current, liquidity),
            ),
        )
    }
}

/// What `calculate_liquidity_amounts` returns: the exact amounts where both
/// exist and fit 64 bits, and `ArithmeticOverflow` otherwise.
pub open spec fn calculated_amounts(current: nat, lower: nat, upper: nat, liquidity: nat) -> Result<
    (u64, u64),
    CLMMError,
> {
    match liquidity_amounts(current, lower, upper, liquidity) {
        Some((amount_a, amount_b)) => if amount_a <= u64::MAX && amount_b <= u64::MAX {
            Ok((amount_a as u64, amount_b as u64))
        } else {
            Err(CLMMError::ArithmeticOverflow)
        },
        None => Err(CLMMError::ArithmeticOverflow),
    }
}

/// A lower price has the larger reciprocal.
pub proof fn lemma_reciprocal_ordered(lower: nat, upper: nat)
    requires
        0 < lower <= upper,
    ensures
        reciprocal_x64(upper) <= reciprocal_x64(lower),
{
    lemma_div_is_ordered_by_denominator(u128::MAX as int, lower as int, upper as int);
}

/// Rounding is toward zero: the tokens taken are never worth more than the
/// liquidity they back.
pub proof fn lemma_tokens_round_down(liquidity: nat, delta: nat)
    ensures
        tokens_for(liquidity, delta) * Q64 <= liquidity * delta,
        liquidity * delta < (tokens_for(liquidity, delta) + 1) * Q64,
{
}

/// Computes `a * b / 2^64`, where the result fits 64 bits: that is exactly
/// where the product fits 128 bits.
fn mul_shift_64(a: u128, b: u128) -> (result: Option<u64>)
    ensures
        result == (if tokens_for(a as nat, b as nat) <= u64::MAX {
            Some(tokens_for(a as nat, b as nat) as u64)
        } else {
            None::<u64>
        }),
{
    match a.checked_mul(b) {
        Some(product) => Some((product / Q64) as u64),
        None => None,
    }
}

/// Returns the amounts of token A and token B that `liquidity` requires over
/// the range `sqrt_price_lower..sqrt_price_upper` at the pool's current
/// square-root price.
///
/// At or below the range only token A is owed, at or above it only token B,
/// inside it both. Fails with `ArithmeticOverflow` where the range is
/// inverted, where a price whose reciprocal is needed is zero, or where an
/// amount does not fit 64 bits.
pub fn calculate_liquidity_amounts(
    sqrt_price_current: u128,
    sqrt_price_lower: u128,
    sqrt_price_upper: u128,
    liquidity: u128,
) -> (result: Result<(u64, u64), CLMMError>)
    ensures
        result == calculated_amounts(
            sqrt_price_current as nat,
            sqrt_price_lower as nat,
            sqrt_price_upper as nat,
            liquidity as nat,
        ),
{
    if sqrt_price_lower > sqrt_price_upper {
        return Err(CLMMError::ArithmeticOverflow);
    }
    if sqrt_price_current <= sqrt_price_lower {
        if sqrt_price_lower == 0 {
            return Err(CLMMError::ArithmeticOverflow);
        }
        proof {
            lemma_reciprocal_ordered(sqrt_price_lower as nat, sqrt_price_upper as nat);
        }
        let delta: u128 = u128::MAX / sqrt_price_lower - u128::MAX / sqrt_price_upper;
        match mul_shift_64(liquidity, delta) {
            Some(amount_a) => Ok((amount_a, 0)),
            None => Err(CLMMError::ArithmeticOverflow),
        }
    } else if sqrt_price_current >= sqrt_price_upper {
        match mul_shift_64(liquidity, sqrt_price_upper - sqrt_price_lower) {
            Some(amount_b) => Ok((0, amount_b)),
            None => Err(CLMMError::ArithmeticOverflow),
        }
    } else {
        proof {
            lemma_reciprocal_ordered(sqrt_price_current as nat, sqrt_price_upper as nat);
        }
        let delta: u128 = u128::MAX / sqrt_price_current - u128::MAX / sqrt_price_upper;
        let amount_a = match mul_shift_64(liquidity, delta) {
            Some(amount) => amount,
            None => { return Err(CLMMError::ArithmeticOverflow); },
        };
        match mul_shift_64(liquidity, sqrt_price_current - sqrt_price_lower) {
            Some(amount_b) => Ok((amount_a, amount_b)),
            None => Err(CLMMError::ArithmeticOverflow),
        }
    }
}

} // verus!
