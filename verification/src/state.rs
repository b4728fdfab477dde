//! The records that a pool keeps.

use vstd::prelude::*;
use crate::utils::price::{
    is_tick_at, lemma_tick_at_in_range, lemma_tick_at_unique, sqrt_price_x64_to_tick,
};

verus! {

/// Identity of a token mint: the 32 bytes of its address.
pub type MintId = [u8; 32];

/// `first` comes before `second` in byte order.
pub open spec fn mint_precedes(first: MintId, second: MintId) -> bool {
    exists|at: int|
        0 <= at < 32 && #[trigger] first[at] < second[at] && forall|before: int|
            0 <= before < at ==> #[trigger] first[before] == second[before]
}

/// One pool per ordered pair of mints.
#[derive(Clone, Copy, Debug, PartialEq, Eq)]
pub struct Pool {
    /// The mint that comes first in byte order.
    pub mint_a: MintId,
    /// The mint that comes second.
    pub mint_b: MintId,
    /// Square root of the current price, in 64.64 fixed point.
    pub sqrt_price_x64: u128,
    /// The tick whose price interval holds `sqrt_price_x64`.
    pub current_tick: i32,
    /// Liquidity of all positions whose range holds `current_tick`.
    pub active_liquidity: u128,
    /// Pool shares in circulation.
    pub total_lp_issued: u64,
}

impl Pool {
    /// The mints are in order and the tick matches the price.
    pub open spec fn well_formed(&self) -> bool {
        &&& mint_precedes(self.mint_a, self.mint_b)
        &&& is_tick_at(self.sqrt_price_x64 as nat, self.current_tick as int)
    }
}

/// One record per tick that a position has ever used as a boundary.
#[derive(Clone, Copy, Debug, PartialEq, Eq, Structural)]
pub struct Tick {
    /// The tick this record belongs to.
    pub index: i32,
    /// Change of the active liquidity when the price crosses this tick
    /// upward.
    pub liquidity_net: i128,
}

/// Tells whether two mint identities are the same.
pub fn same_mint(first: &MintId, second: &MintId) -> (same: bool)
    ensures
        same == (*first == *second),
{
    let mut at: usize = 0;
    while at < 32
        invariant
            at <= 32,
            forall|before: int| 0 <= before < at ==> first[before] == second[before],
        decreases 32 - at,
    {
        if first[at] != second[at] {
            return false;
        }
        at += 1;
    }
    assert(*first =~= *second);
    true
}

/// Tells whether `first` comes before `second` in byte order.
pub fn mint_comes_before(first: &MintId, second: &MintId) -> (before: bool)
    ensures
        before == mint_precedes(*first, *second),
{
    let mut at: usize = 0;
    while at < 32
        invariant
            at <= 32,
            forall|before: int| 0 <= before < at ==> first[before] == second[before],
        decreases 32 - at,
    {
        if first[at] < second[at] {
            return true;
        }
        if first[at] > second[at] {
            return false;
        }
        at += 1;
    }
    false
}

impl Pool {
    /// Tells whether the mints are in order and the tick matches the price.
    pub fn is_well_formed(&self) -> (ok: bool)
        ensures
            ok == self.well_formed(),
    {
        if !mint_comes_before(&self.mint_a, &self.mint_b) {
            return false;
        }
        proof {
            if is_tick_at(self.sqrt_price_x64 as nat, self.current_tick as int) {
                lemma_tick_at_in_range(self.sqrt_price_x64 as nat, self.current_tick as int);
                lemma_tick_at_unique(self.sqrt_price_x64 as nat, self.current_tick as int);
            }
        }
        match sqrt_price_x64_to_tick(self.sqrt_price_x64) {
            Ok(tick) => tick == self.current_tick,
            Err(_) => false,
        }
    }
}

} // verus!
