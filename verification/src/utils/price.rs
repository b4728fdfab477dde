//! Conversion between tick indices and square-root prices.
//!
//! A square-root price is an unsigned 64.64 fixed-point number. Tick `t`
//! stands for the price `1.0001^t`, so its square-root price is
//! `1.0001^(t / 2)`. Ticks at or below zero are reached by multiplying one by
//! the stored factors of the binary digits of `-t`; ticks above zero by
//! dividing the largest 128-bit value by the result for `-t`.

use vstd::prelude::*;
use vstd::arithmetic::power2::{lemma2_to64, lemma_pow2_unfold, pow2};
use vstd::arithmetic::div_mod::lemma_div_is_ordered_by_denominator;
use crate::error::CLMMError;
use crate::utils::tick_factors::{
    factor_at, lead, lemma_factor_table_ends, lemma_factor_table_row, need, step_factor,
    FACTOR_COUNT, Q64,
};

verus! {

/// The lowest tick that has a square-root price.
pub const MIN_TICK: i32 = -443636;

/// The highest tick that has a square-root price.
pub const MAX_TICK: i32 = 443636;

/// `x` times a 64.64 `factor`, rounded down.
pub open spec fn scale(x: nat, factor: nat) -> nat {
    x * factor / (Q64 as nat)
}

/// `x` after the factors of the binary digits of `magnitude` have been
/// applied, the digit for `bit` first.
pub open spec fn reduce(x: nat, magnitude: nat, bit: nat) -> nat
    decreases 19 - bit,
{
    if bit >= 19 {
        x
    } else {
        let next = if magnitude % 2 == 1 {
            scale(x, step_factor(bit))
        } else {
            x
        };
        reduce(next, magnitude / 2, bit + 1)
    }
}

/// `1.0001^(-magnitude / 2)` in 64.64 fixed point.
pub open spec fn reduction_ratio(magnitude: nat) -> nat {
    reduce(Q64 as nat, magnitude, 0)
}

/// The square-root price of `tick` in 64.64 fixed point.
pub open spec fn sqrt_price_at_tick(tick: int) -> nat {
    if tick <= 0 {
        reduction_ratio((-tick) as nat)
    } else {
        (u128::MAX as nat) / reduction_ratio(tick as nat)
    }
}

/// `tick` has a square-root price.
pub open spec fn tick_in_range(tick: int) -> bool {
    MIN_TICK <= tick <= MAX_TICK
}

/// `sqrt_price` lies between the prices of the lowest and the highest tick.
pub open spec fn price_in_range(sqrt_price: nat) -> bool {
    sqrt_price_at_tick(MIN_TICK as int) <= sqrt_price <= sqrt_price_at_tick(MAX_TICK as int)
}

/// `tick` is the tick whose price interval holds `sqrt_price`: the price of
/// `tick` does not exceed it and the price of the next tick does. The highest
/// tick holds its own price only.
pub open spec fn is_tick_at(sqrt_price: nat, tick: int) -> bool {
    &&& tick_in_range(tick)
    &&& sqrt_price_at_tick(tick) <= sqrt_price
    &&& if tick < MAX_TICK {
        sqrt_price < sqrt_price_at_tick(tick + 1)
    } else {
        sqrt_price == sqrt_price_at_tick(tick)
    }
}

/// The tick whose price interval holds `sqrt_price`.
pub open spec fn tick_at_sqrt_price(sqrt_price: nat) -> int {
    choose|tick: int| is_tick_at(sqrt_price, tick)
}

proof fn lemma_reduce_nothing(x: nat, bit: nat)
    ensures
        reduce(x, 0, bit) == x,
    decreases 19 - bit,
{
    if bit < 19 {
        lemma_reduce_nothing(x, bit + 1);
    }
}

proof fn lemma_scale_shrinks(x: nat, factor: nat)
    requires
        factor <= Q64,
    ensures
        scale(x, factor) <= x,
{
    assert(x * factor <= x * 0x1_0000_0000_0000_0000nat) by (nonlinear_arith)
        requires
            factor <= 0x1_0000_0000_0000_0000nat,
    ;
}

proof fn lemma_reduce_shrinks(x: nat, magnitude: nat, bit: nat)
    ensures
        reduce(x, magnitude, bit) <= x,
    decreases 19 - bit,
{
    if bit < 19 {
        lemma_factor_table_row(bit);
        if magnitude % 2 == 1 {
            lemma_scale_shrinks(x, step_factor(bit));
            lemma_reduce_shrinks(scale(x, step_factor(bit)), magnitude / 2, bit + 1);
        } else {
            lemma_reduce_shrinks(x, magnitude / 2, bit + 1);
        }
    }
}

/// A distance `gap` between two values shrinks to no less than `left` under
/// one factor, when `gap` times the factor is worth `left` whole units.
proof fn lemma_scale_keeps_gap(x: nat, y: nat, factor: nat, gap: nat, left: nat)
    requires
        y + gap <= x,
        left * Q64 <= gap * factor,
    ensures
        scale(y, factor) + left <= scale(x, factor),
{
    assert(y * factor + gap * factor <= x * factor) by (nonlinear_arith)
        requires
            y + gap <= x,
    ;
}

/// Two running values that are `need(bit)` apart stay apart to the end.
proof fn lemma_reduce_keeps_gap(x: nat, y: nat, magnitude: nat, bit: nat)
    requires
        bit <= 19,
        y + need(bit) <= x,
    ensures
        reduce(y, magnitude, bit) < reduce(x, magnitude, bit),
    decreases 19 - bit,
{
    if bit < 19 {
        lemma_factor_table_row(bit);
        if magnitude % 2 == 1 {
            let factor = step_factor(bit);
            lemma_scale_keeps_gap(x, y, factor, need(bit), need(bit + 1));
            lemma_reduce_keeps_gap(scale(x, factor), scale(y, factor), magnitude / 2, bit + 1);
        } else {
            lemma_reduce_keeps_gap(x, y, magnitude / 2, bit + 1);
        }
    } else {
        lemma_factor_table_ends();
    }
}

/// Adding one to a magnitude clears a run of low digits and sets the digit
/// above them. While the run lasts, the smaller magnitude has applied every
/// factor so far and the larger none; where it ends, the single factor of the
/// larger one is below the product of the others by more than is needed.
proof fn lemma_reduce_carry(magnitude: nat, bit: nat)
    requires
        bit <= 19,
        magnitude + 1 < pow2((19 - bit) as nat),
    ensures
        reduce(Q64 as nat, magnitude + 1, bit) < reduce(lead(bit), magnitude, bit),
    decreases 19 - bit,
{
    lemma2_to64();
    if bit < 19 {
        lemma_factor_table_row(bit);
        lemma_pow2_unfold((19 - bit) as nat);
        let factor = step_factor(bit);
        if magnitude % 2 == 0 {
            assert(scale(Q64 as nat, factor) == factor);
            lemma_reduce_keeps_gap(lead(bit), factor, magnitude / 2, bit + 1);
            assert((magnitude + 1) / 2 == magnitude / 2);
        } else {
            assert((magnitude + 1) / 2 == magnitude / 2 + 1);
            lemma_reduce_carry(magnitude / 2, bit + 1);
        }
    }
}

proof fn lemma_ratio_bounds(magnitude: nat)
    ensures
        0 < reduction_ratio(magnitude) <= Q64,
{
    lemma_factor_table_ends();
    lemma_reduce_keeps_gap(Q64 as nat, 0, magnitude, 0);
    lemma_reduce_shrinks(Q64 as nat, magnitude, 0);
}

proof fn lemma_ratio_decreasing(small: nat, large: nat)
    requires
        small < large < 0x8_0000,
    ensures
        reduction_ratio(large) < reduction_ratio(small),
    decreases large - small,
{
    let before = (large - 1) as nat;
    lemma2_to64();
    lemma_factor_table_ends();
    lemma_reduce_carry(before, 0);
    if small < before {
        lemma_ratio_decreasing(small, before);
    }
}

proof fn lemma_reciprocal_increasing(x: nat, y: nat)
    requires
        0 < y < x <= Q64,
    ensures
        (u128::MAX as nat) / x < (u128::MAX as nat) / y,
{
    let top = u128::MAX as nat;
    let q = top / x;
    assert(q + 1 <= top / y) by (nonlinear_arith)
        requires
            0 < y < x <= 0x1_0000_0000_0000_0000nat,
            top == 0xffff_ffff_ffff_ffff_ffff_ffff_ffff_ffffnat,
            q == top / x,
    {
        assert(q * x <= top);
        assert(0xffff_ffff_ffff_ffffnat * x <= top);
        assert(0xffff_ffff_ffff_ffffnat <= q);
        assert((q + 1) * y <= q * x + x - q - 1);
        assert((q + 1) * y <= top);
    }
}

/// The price of tick zero is one.
pub proof fn lemma_sqrt_price_at_zero()
    ensures
        sqrt_price_at_tick(0) == Q64,
{
    lemma_reduce_nothing(Q64 as nat, 0);
}

/// Every tick in range has a positive square-root price that fits 128 bits.
pub proof fn lemma_sqrt_price_bounds(tick: int)
    requires
        tick_in_range(tick),
    ensures
        0 < sqrt_price_at_tick(tick) <= u128::MAX,
        tick <= 0 ==> sqrt_price_at_tick(tick) <= Q64,
        tick > 0 ==> sqrt_price_at_tick(tick) > Q64,
{
    if tick <= 0 {
        lemma_ratio_bounds((-tick) as nat);
    } else {
        let ratio = reduction_ratio(tick as nat);
        let first = step_factor(0);
        lemma_ratio_bounds(tick as nat);
        assert(reduction_ratio(1) == first) by {
            assert(scale(Q64 as nat, first) == first);
            lemma_reduce_nothing(first, 1);
        }
        if tick > 1 {
            lemma_ratio_decreasing(1, tick as nat);
        }
        lemma_div_is_ordered_by_denominator(u128::MAX as int, ratio as int, first as int);
        assert((u128::MAX as nat) / 18445821805675392311nat == 18447666387855959851nat);
    }
}

/// A higher tick has a strictly higher square-root price.
pub proof fn lemma_sqrt_price_strictly_increasing(low: int, high: int)
    requires
        tick_in_range(low),
        tick_in_range(high),
        low < high,
    ensures
        sqrt_price_at_tick(low) < sqrt_price_at_tick(high),
{
    if high <= 0 {
        lemma_ratio_decreasing((-high) as nat, (-low) as nat);
    } else if low > 0 {
        lemma_ratio_decreasing(low as nat, high as nat);
        lemma_ratio_bounds(low as nat);
        lemma_ratio_bounds(high as nat);
        lemma_reciprocal_increasing(reduction_ratio(low as nat), reduction_ratio(high as nat));
    } else {
        lemma_sqrt_price_bounds(low);
        lemma_sqrt_price_bounds(high);
    }
}

/// At most one tick holds a given square-root price.
pub proof fn lemma_tick_at_unique(sqrt_price: nat, tick: int)
    requires
        is_tick_at(sqrt_price, tick),
    ensures
        tick_at_sqrt_price(sqrt_price) == tick,
{
    let other = tick_at_sqrt_price(sqrt_price);
    assert(is_tick_at(sqrt_price, other));
    if other < tick {
        if other + 1 < tick {
            lemma_sqrt_price_strictly_increasing(other + 1, tick);
        }
    } else if tick < other {
        if tick + 1 < other {
            lemma_sqrt_price_strictly_increasing(tick + 1, other);
        }
    }
}

/// A price that some tick holds lies in range.
pub proof fn lemma_tick_at_in_range(sqrt_price: nat, tick: int)
    requires
        is_tick_at(sqrt_price, tick),
    ensures
        price_in_range(sqrt_price),
{
    if MIN_TICK < tick {
        lemma_sqrt_price_strictly_increasing(MIN_TICK as int, tick);
    }
    if tick + 1 < MAX_TICK {
        lemma_sqrt_price_strictly_increasing(tick + 1, MAX_TICK as int);
    }
}

/// Converting a tick to its square-root price and back returns the tick.
pub proof fn lemma_tick_round_trip(tick: int)
    requires
        tick_in_range(tick),
    ensures
        price_in_range(sqrt_price_at_tick(tick)),
        is_tick_at(sqrt_price_at_tick(tick), tick),
        tick_at_sqrt_price(sqrt_price_at_tick(tick)) == tick,
{
    if tick < MAX_TICK {
        lemma_sqrt_price_strictly_increasing(tick, tick + 1);
        lemma_sqrt_price_strictly_increasing(tick, MAX_TICK as int);
    }
    if MIN_TICK < tick {
        lemma_sqrt_price_strictly_increasing(MIN_TICK as int, tick);
    }
    lemma_tick_at_unique(sqrt_price_at_tick(tick), tick);
}

/// Applies the factors of the binary digits of `magnitude` to one.
fn reduction_for(magnitude: u32) -> (ratio: u128)
    requires
        magnitude < 0x8_0000,
    ensures
        ratio == reduction_ratio(magnitude as nat),
        0 < ratio <= Q64,
{
    let mut ratio: u128 = Q64;
    let mut rest: u32 = magnitude;
    let mut bit: u32 = 0;
    while bit < FACTOR_COUNT
        invariant
            bit <= FACTOR_COUNT,
            ratio <= Q64,
            reduce(ratio as nat, rest as nat, bit as nat) == reduction_ratio(magnitude as nat),
        decreases FACTOR_COUNT - bit,
    {
        if rest % 2 == 1 {
            let factor = factor_at(bit);
            assert(ratio * factor <= u128::MAX) by (nonlinear_arith)
                requires
                    ratio <= 0x1_0000_0000_0000_0000u128,
                    factor < 0x1_0000_0000_0000_0000u128,
            ;
            proof {
                lemma_scale_shrinks(ratio as nat, factor as nat);
            }
            ratio = ratio * factor / Q64;
        }
        rest = rest / 2;
        bit = bit + 1;
    }
    proof {
        lemma_ratio_bounds(magnitude as nat);
    }
    ratio
}

/// Returns the square-root price of `tick` in 64.64 fixed point.
///
/// Ticks outside `MIN_TICK..=MAX_TICK` have no representable price and are
/// refused with `PriceOverflow`.
pub fn tick_to_sqrt_price_x64(tick: i32) -> (result: Result<u128, CLMMError>)
    ensures
        tick_in_range(tick as int) ==> result == Ok::<u128, CLMMError>(
            sqrt_price_at_tick(tick as int) as u128,
        ) && sqrt_price_at_tick(tick as int) <= u128::MAX,
        !tick_in_range(tick as int) ==> result == Err::<u128, CLMMError>(
            CLMMError::PriceOverflow,
        ),
{
    if tick < MIN_TICK || tick > MAX_TICK {
        return Err(CLMMError::PriceOverflow);
    }
    proof {
        lemma_sqrt_price_bounds(tick as int);
    }
    if tick <= 0 {
        let magnitude: u32 = (0 - tick) as u32;
        Ok(reduction_for(magnitude))
    } else {
        let ratio = reduction_for(tick as u32);
        Ok(u128::MAX / ratio)
    }
}

/// Returns the tick whose price interval holds `sqrt_price_x64`.
///
/// Prices below that of `MIN_TICK` or above that of `MAX_TICK` belong to no
/// tick and are refused with `PriceOverflow`.
pub fn sqrt_price_x64_to_tick(sqrt_price_x64: u128) -> (result: Result<i32, CLMMError>)
    ensures
        price_in_range(sqrt_price_x64 as nat) ==> result == Ok::<i32, CLMMError>(
            tick_at_sqrt_price(sqrt_price_x64 as nat) as i32,
        ) && is_tick_at(sqrt_price_x64 as nat, tick_at_sqrt_price(sqrt_price_x64 as nat)),
        !price_in_range(sqrt_price_x64 as nat) ==> result == Err::<i32, CLMMError>(
            CLMMError::PriceOverflow,
        ),
{
    let lowest = match tick_to_sqrt_price_x64(MIN_TICK) {
        Ok(price) => price,
        Err(e) => { return Err(e); },
    };
    let highest = match tick_to_sqrt_price_x64(MAX_TICK) {
        Ok(price) => price,
        Err(e) => { return Err(e); },
    };
    if sqrt_price_x64 < lowest || sqrt_price_x64 > highest {
        return Err(CLMMError::PriceOverflow);
    }
    if sqrt_price_x64 == highest {
        proof {
            lemma_tick_at_unique(sqrt_price_x64 as nat, MAX_TICK as int);
        }
        return Ok(MAX_TICK);
    }
    let mut low: i32 = MIN_TICK;
    let mut high: i32 = MAX_TICK;
    while high - low > 1
        invariant
            MIN_TICK <= low < high <= MAX_TICK,
            sqrt_price_at_tick(low as int) <= sqrt_price_x64 < sqrt_price_at_tick(high as int),
        decreases high - low,
    {
        let middle: i32 = low + (high - low) / 2;
        let price = match tick_to_sqrt_price_x64(middle) {
            Ok(price) => price,
            Err(e) => { return Err(e); },
        };
        if price <= sqrt_price_x64 {
            low = middle;
        } else {
            high = middle;
        }
    }
    proof {
        lemma_tick_at_unique(sqrt_price_x64 as nat, low as int);
    }
    Ok(low)
}

} // verus!
