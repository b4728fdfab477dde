//! Failure kinds of the provisioning core.

use vstd::prelude::*;

verus! {

/// Every way a provisioning request can be turned down.
#[derive(Clone, Copy, Debug, PartialEq, Eq, Structural)]
pub enum CLMMError {
    /// The lower tick is not strictly below the upper tick.
    TickMismatch,
    /// A supplied tick record carries another index than the one requested.
    InvalidTickIndex,
    /// The pool was created for other mints than the ones supplied.
    InvalidTokenMint,
    /// A tick is not a multiple of the tick spacing.
    UnalignedTick,
    /// An exact result does not fit the integer type that has to hold it.
    ArithmeticOverflow,
    /// A tick or a square-root price lies outside the representable range.
    PriceOverflow,
    /// Supply has been issued, yet both vaults are empty.
    PoolEmpty,
}

} // verus!
