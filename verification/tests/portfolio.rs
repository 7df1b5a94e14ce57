use percolator::error::PercolatorError;
use percolator::portfolio::{Portfolio, MAX_EXPOSURES};
use percolator::settlement::{
    calculate_initial_margin, calculate_net_exposure, calculate_portfolio_margin_from_exposures,
    calculate_realized_pnl, classify_fill, margin_for, FillKind, SlabSplit,
};
use percolator::position_details::PositionDetails;

fn empty() -> Portfolio {
    Portfolio::new([2u8; 32], [1u8; 32])
}

#[test]
fn new_portfolio_is_empty() {
    let portfolio = empty();
    assert_eq!(portfolio.user, [1u8; 32]);
    assert_eq!(portfolio.router_id, [2u8; 32]);
    assert_eq!(portfolio.equity, 0);
    assert_eq!(portfolio.exposures.len(), 0);
    assert_eq!(portfolio.get_exposure(0, 0), 0);
    assert!(portfolio.has_sufficient_margin());
}

#[test]
fn exposures_are_set_found_and_cleared_in_order() {
    let mut portfolio = empty();
    assert_eq!(portfolio.update_exposure(3, 0, 10), Ok(()));
    assert_eq!(portfolio.update_exposure(1, 0, -20), Ok(()));
    assert_eq!(portfolio.update_exposure(2, 1, 30), Ok(()));
    assert_eq!(portfolio.exposures, vec![(3, 0, 10), (1, 0, -20), (2, 1, 30)]);
    assert_eq!(portfolio.get_exposure(1, 0), -20);
    assert_eq!(portfolio.get_exposure(2, 0), 0);
    assert_eq!(portfolio.update_exposure(1, 0, 25), Ok(()));
    assert_eq!(portfolio.exposures, vec![(3, 0, 10), (1, 0, 25), (2, 1, 30)]);
    assert_eq!(portfolio.update_exposure(3, 0, 0), Ok(()));
    assert_eq!(portfolio.exposures, vec![(1, 0, 25), (2, 1, 30)]);
    assert_eq!(portfolio.get_exposure(3, 0), 0);
    assert_eq!(portfolio.update_exposure(9, 9, 0), Ok(()));
    assert_eq!(portfolio.exposures, vec![(1, 0, 25), (2, 1, 30)]);
}

#[test]
fn a_full_portfolio_refuses_a_new_exposure() {
    let mut portfolio = empty();
    for slab in 0..MAX_EXPOSURES {
        assert_eq!(portfolio.update_exposure(slab as u16, 0, 1), Ok(()));
    }
    let before = portfolio.clone();
    assert_eq!(portfolio.update_exposure(1_000, 0, 1), Err(PercolatorError::PoolFull));
    assert_eq!(portfolio, before);
    assert_eq!(portfolio.update_exposure(5, 0, 7), Ok(()));
    assert_eq!(portfolio.get_exposure(5, 0), 7);
    assert_eq!(portfolio.update_exposure(6, 0, 0), Ok(()));
    assert_eq!(portfolio.update_exposure(1_000, 0, 1), Ok(()));
}

#[test]
fn snapshot_copies_everything() {
    let mut portfolio = empty();
    portfolio.equity = -5;
    portfolio.lamports = 9;
    portfolio.update_exposure(1, 0, 4).unwrap();
    assert_eq!(portfolio.snapshot(), portfolio);
}

#[test]
fn margin_is_sufficient_when_equity_covers_maintenance() {
    let mut portfolio = empty();
    portfolio.update_margin(200, 100);
    assert_eq!((portfolio.im, portfolio.mm), (200, 100));
    portfolio.equity = 99;
    assert!(!portfolio.has_sufficient_margin());
    portfolio.equity = 100;
    assert!(portfolio.has_sufficient_margin());
    portfolio.equity = -1;
    portfolio.update_margin(0, 0);
    assert!(!portfolio.has_sufficient_margin());
}

#[test]
fn net_exposure_sums_all_venues() {
    let mut portfolio = empty();
    portfolio.update_exposure(0, 0, 10).unwrap();
    portfolio.update_exposure(1, 0, -25).unwrap();
    portfolio.update_exposure(2, 0, 5).unwrap();
    assert_eq!(calculate_net_exposure(&portfolio), Ok(-10));
    assert_eq!(calculate_net_exposure(&empty()), Ok(0));
}

#[test]
fn net_exposure_outside_the_range_fails() {
    let mut portfolio = empty();
    portfolio.update_exposure(0, 0, i64::MAX).unwrap();
    portfolio.update_exposure(1, 0, 1).unwrap();
    assert_eq!(calculate_net_exposure(&portfolio), Err(PercolatorError::Overflow));
    portfolio.update_exposure(2, 0, -1).unwrap();
    assert_eq!(calculate_net_exposure(&portfolio), Ok(i64::MAX));
}

#[test]
fn initial_margin_is_notional_over_leverage() {
    let splits = vec![SlabSplit { slab_id: [9u8; 32], qty: 1_000_000, side: 0, limit_px: 200_000_000 }];
    assert_eq!(calculate_initial_margin(1_000_000, &splits, 1), 200);
    assert_eq!(calculate_initial_margin(-1_000_000, &splits, 5), 40);
    assert_eq!(calculate_initial_margin(1_000_000, &splits, 10), 20);
    assert_eq!(calculate_initial_margin(0, &splits, 10), 0);
    assert_eq!(calculate_initial_margin(1_000_000, &Vec::new(), 10), 0);
}

#[test]
fn realized_pnl_only_when_the_fill_reduces() {
    // Long 2.0 entered at 50k, sells 1.0 at 52k.
    assert_eq!(
        calculate_realized_pnl(2_000_000, 1_000_000, 1, 52_000_000_000, 50_000_000_000),
        2_000_000_000
    );
    // The same fill as a buy adds and realizes nothing.
    assert_eq!(calculate_realized_pnl(2_000_000, 1_000_000, 0, 52_000_000_000, 50_000_000_000), 0);
    // Short 2.0, buys back 5.0 at 48k: only 2.0 are closed.
    assert_eq!(
        calculate_realized_pnl(-2_000_000, 5_000_000, 0, 48_000_000_000, 50_000_000_000),
        4_000_000_000
    );
    // A flat position realizes nothing.
    assert_eq!(calculate_realized_pnl(0, 1_000_000, 1, 52_000_000_000, 50_000_000_000), 0);
}

#[test]
fn fills_are_classified_by_direction_and_size() {
    assert_eq!(classify_fill(0, 5), FillKind::OpenOrAdd);
    assert_eq!(classify_fill(0, -5), FillKind::OpenOrAdd);
    assert_eq!(classify_fill(3, 5), FillKind::OpenOrAdd);
    assert_eq!(classify_fill(-3, -5), FillKind::OpenOrAdd);
    assert_eq!(classify_fill(5, -3), FillKind::Reduce);
    assert_eq!(classify_fill(5, -5), FillKind::Reduce);
    assert_eq!(classify_fill(-5, 5), FillKind::Reduce);
    assert_eq!(classify_fill(5, -6), FillKind::Reverse);
    assert_eq!(classify_fill(-5, 6), FillKind::Reverse);
    assert_eq!(classify_fill(i64::MIN, i64::MAX), FillKind::Reduce);
}

#[test]
fn margin_is_quantity_times_unit_over_leverage() {
    assert_eq!(margin_for(2_000_000, 1), 2_000_000_000);
    assert_eq!(margin_for(2_000_000, 10), 200_000_000);
    assert_eq!(margin_for(1, 3), 333);
    assert_eq!(margin_for(0, 1), 0);
    assert_eq!(margin_for(u64::MAX, 1), u64::MAX as u128 * 1_000);
}

#[test]
fn portfolio_margin_is_the_margin_held_by_open_positions() {
    let key = [7u8; 32];
    let mut portfolio = empty();
    portfolio.update_exposure(0, 0, 10).unwrap();
    portfolio.update_exposure(1, 0, -4).unwrap();
    let positions = vec![
        PositionDetails::new(key, 1, 0, 5, -4, 0, 255, 40, 1),
        PositionDetails::new([8u8; 32], 0, 0, 5, 10, 0, 255, 1_000, 1),
        PositionDetails::new(key, 0, 0, 5, 10, 0, 255, 100, 1),
        PositionDetails::new(key, 3, 0, 5, 10, 0, 255, 7, 1),
    ];
    // The record of another portfolio and the record without an exposure add nothing.
    assert_eq!(calculate_portfolio_margin_from_exposures(&portfolio, &key, &positions), Ok(140));
    let huge = vec![
        PositionDetails::new(key, 0, 0, 5, 10, 0, 255, u128::MAX - 1, 1),
        PositionDetails::new(key, 1, 0, 5, -4, 0, 255, 40, 1),
    ];
    assert_eq!(calculate_portfolio_margin_from_exposures(&portfolio, &key, &huge), Ok(u128::MAX));
    assert_eq!(calculate_portfolio_margin_from_exposures(&empty(), &key, &Vec::new()), Ok(0));
}

#[test]
fn portfolio_margin_needs_the_record_of_every_open_exposure() {
    let key = [7u8; 32];
    let mut portfolio = empty();
    portfolio.update_exposure(0, 0, 10).unwrap();
    portfolio.update_exposure(2, 0, 8).unwrap();
    let positions = vec![PositionDetails::new(key, 0, 0, 5, 10, 0, 255, 100, 1)];
    assert_eq!(
        calculate_portfolio_margin_from_exposures(&portfolio, &key, &positions),
        Err(PercolatorError::InvalidAccount)
    );
    assert_eq!(
        calculate_portfolio_margin_from_exposures(&portfolio, &key, &Vec::new()),
        Err(PercolatorError::InvalidAccount)
    );
    // The record of another portfolio on the venue does not stand in.
    let foreign = vec![
        PositionDetails::new(key, 0, 0, 5, 10, 0, 255, 100, 1),
        PositionDetails::new([8u8; 32], 2, 0, 5, 8, 0, 255, 100, 1),
    ];
    assert_eq!(
        calculate_portfolio_margin_from_exposures(&portfolio, &key, &foreign),
        Err(PercolatorError::InvalidAccount)
    );
    // A flat slot asks for no record.
    portfolio.exposures = vec![(0, 0, 10), (2, 0, 0)];
    assert_eq!(calculate_portfolio_margin_from_exposures(&portfolio, &key, &positions), Ok(100));
}
