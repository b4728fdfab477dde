//! Signed liquidity bookkeeping at the boundaries of positions.
//!
//! Opening a position adds its liquidity to the record of its lower tick and
//! subtracts it from the record of its upper tick. Summed over every tick the
//! two cancel; summed up to the current tick they give the liquidity that is
//! active at the current price.

use vstd::prelude::*;
use crate::error::CLMMError;
use crate::state::Tick;

verus! {

/// `tick` after a position with `liquidity` starts at it.
pub open spec fn opened_below(tick: Tick, liquidity: nat) -> Tick {
    Tick { index: tick.index, liquidity_net: (tick.liquidity_net + liquidity) as i128 }
}

/// `tick` after a position with `liquidity` ends at it.
pub open spec fn opened_above(tick: Tick, liquidity: nat) -> Tick {
    Tick { index: tick.index, liquidity_net: (tick.liquidity_net - liquidity) as i128 }
}

/// What opening a position does to its two boundary records.
///
/// The records must be those of the requested ticks. The liquidity and both
/// new sums must fit a signed 128-bit integer.
pub open spec fn position_open_outcome(
    lower: Tick,
    upper: Tick,
    tick_lower: int,
    tick_upper: int,
    liquidity: nat,
) -> Result<(Tick, Tick), CLMMError> {
    if lower.index != tick_lower || upper.index != tick_upper {
        Err(CLMMError::InvalidTickIndex)
    } else if liquidity > i128::MAX || lower.liquidity_net + liquidity > i128::MAX
        || upper.liquidity_net - liquidity < i128::MIN {
        Err(CLMMError::ArithmeticOverflow)
    } else {
        Ok((opened_below(lower, liquidity), opened_above(upper, liquidity)))
    }
}

/// Records a new position at its two boundary ticks: `liquidity` is added to
/// the net of `lower` and subtracted from the net of `upper`.
///
/// Fails with `InvalidTickIndex` where a record belongs to another tick than
/// the one requested, and with `ArithmeticOverflow` where the liquidity or a
/// new net does not fit a signed 128-bit integer. A failed call changes
/// neither record.
pub fn apply_position_open(
    lower: &mut Tick,
    upper: &mut Tick,
    tick_lower: i32,
    tick_upper: i32,
    liquidity: u128,
) -> (result: Result<(), CLMMError>)
    ensures
        match position_open_outcome(
            *old(lower),
            *old(upper),
            tick_lower as int,
            tick_upper as int,
            liquidity as nat,
        ) {
            Ok((below, above)) => result == Ok::<(), CLMMError>(()) && *final(lower) == below
                && *final(upper) == above,
            Err(e) => result == Err::<(), CLMMError>(e) && *final(lower) == *old(lower)
                && *final(upper) == *old(upper),
        },
{
    if lower.index != tick_lower || upper.index != tick_upper {
        return Err(CLMMError::InvalidTickIndex);
    }
    if liquidity > i128::MAX as u128 {
        return Err(CLMMError::ArithmeticOverflow);
    }
    let delta: i128 = liquidity as i128;
    let below = match lower.liquidity_net.checked_add(delta) {
        Some(net) => net,
        None => { return Err(CLMMError::ArithmeticOverflow); },
    };
    let above = match upper.liquidity_net.checked_sub(delta) {
        Some(net) => net,
        None => { return Err(CLMMError::ArithmeticOverflow); },
    };
    lower.liquidity_net = below;
    upper.liquidity_net = above;
    Ok(())
}

/// What `tick` adds to a sum that reaches up to the tick `bound`.
pub open spec fn counted_net(tick: Tick, bound: int) -> int {
    if tick.index <= bound {
        tick.liquidity_net as int
    } else {
        0
    }
}

/// Sum of the nets of all records whose tick is at or below `bound`.
pub open spec fn net_up_to(ticks: Seq<Tick>, bound: int) -> int
    decreases ticks.len(),
{
    if ticks.len() == 0 {
        0
    } else {
        net_up_to(ticks.drop_last(), bound) + counted_net(ticks.last(), bound)
    }
}

/// Sum of the nets of all records.
pub open spec fn net_total(ticks: Seq<Tick>) -> int {
    net_up_to(ticks, i32::MAX as int)
}

/// A position to open on a ledger: the places of its lower and upper records
/// and its liquidity.
pub type Opening = (int, int, nat);

/// `opening` names two different records of `ticks`, the lower tick below the
/// upper, and its liquidity fits both.
pub open spec fn opening_applies(ticks: Seq<Tick>, opening: Opening) -> bool {
    &&& 0 <= opening.0 < ticks.len()
    &&& 0 <= opening.1 < ticks.len()
    &&& ticks[opening.0].index < ticks[opening.1].index
    &&& position_open_outcome(
        ticks[opening.0],
        ticks[opening.1],
        ticks[opening.0].index as int,
        ticks[opening.1].index as int,
        opening.2,
    ) is Ok
}

/// The ledger after `opening` has been recorded.
pub open spec fn ledger_after(ticks: Seq<Tick>, opening: Opening) -> Seq<Tick> {
    ticks.update(opening.0, opened_below(ticks[opening.0], opening.2)).update(
        opening.1,
        opened_above(ticks[opening.1], opening.2),
    )
}

/// Every opening of the sequence applies to the ledger that the ones before
/// it have left.
pub open spec fn openings_apply(ticks: Seq<Tick>, openings: Seq<Opening>) -> bool
    decreases openings.len(),
{
    openings.len() == 0 || (openings_apply(ticks, openings.drop_last()) && opening_applies(
        ledger_after_all(ticks, openings.drop_last()),
        openings.last(),
    ))
}

/// The ledger after all `openings` have been recorded in order.
pub open spec fn ledger_after_all(ticks: Seq<Tick>, openings: Seq<Opening>) -> Seq<Tick>
    decreases openings.len(),
{
    if openings.len() == 0 {
        ticks
    } else {
        ledger_after(ledger_after_all(ticks, openings.drop_last()), openings.last())
    }
}

proof fn lemma_net_after_update(ticks: Seq<Tick>, at: int, tick: Tick, bound: int)
    requires
        0 <= at < ticks.len(),
    ensures
        net_up_to(ticks.update(at, tick), bound) == net_up_to(ticks, bound) - counted_net(
            ticks[at],
            bound,
        ) + counted_net(tick, bound),
    decreases ticks.len(),
{
    let updated = ticks.update(at, tick);
    if at == ticks.len() - 1 {
        assert(updated.drop_last() =~= ticks.drop_last());
    } else {
        assert(updated.drop_last() =~= ticks.drop_last().update(at, tick));
        lemma_net_after_update(ticks.drop_last(), at, tick, bound);
    }
}

/// Opening a position raises the sum up to `bound` by its liquidity where
/// `bound` lies in the position's range, and leaves it unchanged elsewhere.
pub proof fn lemma_opening_moves_net_up_to(ticks: Seq<Tick>, opening: Opening, bound: int)
    requires
        opening_applies(ticks, opening),
    ensures
        net_up_to(ledger_after(ticks, opening), bound) == net_up_to(ticks, bound) + (if ticks[opening.0].index
            <= bound < ticks[opening.1].index {
            opening.2 as int
        } else {
            0
        }),
{
    let below = opened_below(ticks[opening.0], opening.2);
    let above = opened_above(ticks[opening.1], opening.2);
    let half = ticks.update(opening.0, below);
    lemma_net_after_update(ticks, opening.0, below, bound);
    lemma_net_after_update(half, opening.1, above, bound);
}

/// Opening a position leaves the sum of all nets unchanged.
pub proof fn lemma_opening_keeps_net_total(ticks: Seq<Tick>, opening: Opening)
    requires
        opening_applies(ticks, opening),
    ensures
        net_total(ledger_after(ticks, opening)) == net_total(ticks),
{
    lemma_opening_moves_net_up_to(ticks, opening, i32::MAX as int);
}

/// No sequence of openings changes the sum of all nets: on a ledger whose
/// nets cancel, they still cancel after every position has been recorded.
pub proof fn lemma_openings_keep_net_total(ticks: Seq<Tick>, openings: Seq<Opening>)
    requires
        openings_apply(ticks, openings),
    ensures
        net_total(ledger_after_all(ticks, openings)) == net_total(ticks),
        net_total(ticks) == 0 ==> net_total(ledger_after_all(ticks, openings)) == 0,
    decreases openings.len(),
{
    if openings.len() > 0 {
        lemma_openings_keep_net_total(ticks, openings.drop_last());
        lemma_opening_keeps_net_total(
            ledger_after_all(ticks, openings.drop_last()),
            openings.last(),
        );
    }
}

} // verus!
