//! The operations that a pool offers.

pub mod add_liquidity;

pub use add_liquidity::{add_liquidity, AddLiquidity, CustodyRequests};
