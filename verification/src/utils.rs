//! Price and amount arithmetic shared by the provisioning rules.

pub mod amounts;
pub mod price;
pub mod sqrt;
pub mod tick_factors;

pub use amounts::calculate_liquidity_amounts;
pub use price::tick_to_sqrt_price_x64;
pub use sqrt::integer_sqrt;

use vstd::prelude::*;

verus! {

/// Distance between neighbouring usable ticks: every tick of a position is a
/// multiple of it.
pub const TICK_SPACING: i32 = 10;

} // verus!
