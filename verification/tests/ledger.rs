use clmm::error::CLMMError;
use clmm::ledger::apply_position_open;
use clmm::state::Tick;

#[test]
fn opening_adds_below_and_subtracts_above() {
    let mut lower = Tick { index: -20, liquidity_net: 5 };
    let mut upper = Tick { index: 30, liquidity_net: -5 };
    assert_eq!(apply_position_open(&mut lower, &mut upper, -20, 30, 1000), Ok(()));
    assert_eq!(lower, Tick { index: -20, liquidity_net: 1005 });
    assert_eq!(upper, Tick { index: 30, liquidity_net: -1005 });
}

#[test]
fn openings_cancel_over_all_ticks() {
    let mut ticks = [
        Tick { index: -30, liquidity_net: 0 },
        Tick { index: -10, liquidity_net: 0 },
        Tick { index: 0, liquidity_net: 0 },
        Tick { index: 20, liquidity_net: 0 },
    ];
    let openings: [(usize, usize, u128); 5] =
        [(0, 3, 700), (1, 2, 11), (0, 1, 999), (2, 3, 5), (1, 3, 123456789)];
    for (lower_at, upper_at, liquidity) in openings {
        let (head, tail) = ticks.split_at_mut(upper_at);
        let lower_index = head[lower_at].index;
        let upper_index = tail[0].index;
        assert_eq!(
            apply_position_open(
                &mut head[lower_at],
                &mut tail[0],
                lower_index,
                upper_index,
                liquidity
            ),
            Ok(())
        );
        let total: i128 = ticks.iter().map(|tick| tick.liquidity_net).sum();
        assert_eq!(total, 0);
    }
    assert_eq!(ticks[0].liquidity_net, 1699);
    assert_eq!(ticks[3].liquidity_net, -(700 + 5 + 123456789));
}

#[test]
fn record_of_another_tick_is_refused() {
    let mut lower = Tick { index: 10, liquidity_net: 1 };
    let mut upper = Tick { index: 20, liquidity_net: 2 };
    assert_eq!(
        apply_position_open(&mut lower, &mut upper, 0, 20, 5),
        Err(CLMMError::InvalidTickIndex)
    );
    assert_eq!(
        apply_position_open(&mut lower, &mut upper, 10, 30, 5),
        Err(CLMMError::InvalidTickIndex)
    );
    assert_eq!(lower, Tick { index: 10, liquidity_net: 1 });
    assert_eq!(upper, Tick { index: 20, liquidity_net: 2 });
}

#[test]
fn net_that_leaves_its_range_is_refused() {
    let mut lower = Tick { index: 10, liquidity_net: i128::MAX };
    let mut upper = Tick { index: 20, liquidity_net: 0 };
    assert_eq!(
        apply_position_open(&mut lower, &mut upper, 10, 20, 1),
        Err(CLMMError::ArithmeticOverflow)
    );
    assert_eq!(lower.liquidity_net, i128::MAX);
    assert_eq!(upper.liquidity_net, 0);

    let mut lower = Tick { index: 10, liquidity_net: 0 };
    let mut upper = Tick { index: 20, liquidity_net: i128::MIN };
    assert_eq!(
        apply_position_open(&mut lower, &mut upper, 10, 20, 1),
        Err(CLMMError::ArithmeticOverflow)
    );
    assert_eq!(lower.liquidity_net, 0);
    assert_eq!(upper.liquidity_net, i128::MIN);
}

#[test]
fn liquidity_beyond_the_signed_range_is_refused() {
    let mut lower = Tick { index: 10, liquidity_net: 0 };
    let mut upper = Tick { index: 20, liquidity_net: 0 };
    assert_eq!(
        apply_position_open(&mut lower, &mut upper, 10, 20, (i128::MAX as u128) + 1),
        Err(CLMMError::ArithmeticOverflow)
    );
    assert_eq!(
        apply_position_open(&mut lower, &mut upper, 10, 20, u128::MAX),
        Err(CLMMError::ArithmeticOverflow)
    );
    assert_eq!(lower.liquidity_net, 0);
    assert_eq!(upper.liquidity_net, 0);
    assert_eq!(apply_position_open(&mut lower, &mut upper, 10, 20, i128::MAX as u128), Ok(()));
    assert_eq!(lower.liquidity_net, i128::MAX);
    assert_eq!(upper.liquidity_net, -i128::MAX);
}
