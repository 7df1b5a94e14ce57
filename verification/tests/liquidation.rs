use percolator::error::PercolatorError;
use percolator::liquidation::{is_liquidatable, process_liquidate_user};
use percolator::portfolio::Portfolio;
use percolator::position_details::PositionDetails;
use percolator::registry::SlabRegistry;
use percolator::settlement::Ledger;
use percolator::vesting::GlobalHaircut;

const PORTFOLIO_KEY: [u8; 32] = [7u8; 32];

fn funded(owner: [u8; 32], lamports: u64) -> Portfolio {
    let mut portfolio = Portfolio::new([2u8; 32], owner);
    portfolio.lamports = lamports;
    portfolio.equity = lamports as i128;
    portfolio.principal = lamports as i128;
    portfolio
}

/// A trader with positions on the venues 0, 1 and 2, each long 1.0 entered at
/// 50,000 with 1,000 of margin, and 100 of free collateral.
fn ledger() -> Ledger {
    let mut registry = SlabRegistry::new([2u8; 32], [4u8; 32], 254);
    let mut user = funded([1u8; 32], 100);
    let mut positions = Vec::new();
    for venue in 0..3u8 {
        registry
            .register_slab([venue; 32], [0u8; 32], [5u8; 32], 1_000, 500, 0, 0, 1_000, u128::MAX, 0)
            .unwrap();
        user.update_exposure(venue as u16, 0, 1_000_000).unwrap();
        // Records are kept in another order than the venues.
        positions.insert(0, PositionDetails::new(PORTFOLIO_KEY, venue as u16, 0, 50_000_000_000, 1_000_000, 0, 255, 1_000, 1));
    }
    user.update_margin(3_000, 1_500);
    Ledger { user, dlp: funded([3u8; 32], 1_000_000), registry, positions }
}

fn prices(px: i64) -> Vec<Option<i64>> {
    vec![Some(px), Some(px), Some(px)]
}

#[test]
fn liquidatable_below_the_maintenance_margin() {
    let mut p = funded([1u8; 32], 0);
    p.update_margin(200, 100);
    p.equity = 100;
    assert!(!is_liquidatable(&p, false));
    assert!(is_liquidatable(&p, true));
    p.equity = 99;
    assert!(is_liquidatable(&p, false));
    p.equity = 200;
    assert!(!is_liquidatable(&p, true));
    p.equity = -1;
    p.update_margin(0, 0);
    assert!(is_liquidatable(&p, false));
}

#[test]
fn a_healthy_portfolio_is_left_alone() {
    let mut l = ledger();
    l.user.equity = 1_500;
    let before = l.clone();
    assert_eq!(process_liquidate_user(&mut l, &PORTFOLIO_KEY, &prices(1), false, 0, 9), Ok(()));
    assert_eq!(l.positions, before.positions);
    assert_eq!(l.user.exposures, before.user.exposures);
    assert_eq!(l.user.lamports, before.user.lamports);
    assert_eq!(l.user.equity, 1_500);
}

#[test]
fn positions_close_in_registry_order_until_the_margin_is_covered() {
    let mut l = ledger();
    // Equity 100 against a maintenance margin of 1,500.
    assert_eq!(process_liquidate_user(&mut l, &PORTFOLIO_KEY, &prices(50_000_000_000), false, 0, 9), Ok(()));
    // Venue 0 closes: 1,000 of margin return, equity 1,100 covers the 1,000 now required.
    assert_eq!(l.user.exposures, vec![(1, 0, 1_000_000), (2, 0, 1_000_000)]);
    assert_eq!(l.positions.len(), 2);
    assert_eq!((l.positions[0].slab_index, l.positions[1].slab_index), (2, 1));
    assert_eq!((l.user.lamports, l.user.equity), (1_100, 1_100));
    assert_eq!((l.user.im, l.user.mm), (2_000, 1_000));
    assert_eq!(l.dlp.lamports, 999_000);
}

#[test]
fn liquidation_ahead_of_the_breach_goes_by_the_initial_margin() {
    let mut l = ledger();
    l.user.equity = 1_600;
    l.user.lamports = 1_600;
    let healthy = l.clone();
    assert_eq!(process_liquidate_user(&mut l, &PORTFOLIO_KEY, &prices(50_000_000_000), false, 0, 9), Ok(()));
    assert_eq!(l.positions, healthy.positions);
    assert_eq!(process_liquidate_user(&mut l, &PORTFOLIO_KEY, &prices(50_000_000_000), true, 0, 9), Ok(()));
    // Equity 1,600 is below the initial margin of 3,000; after one close 2,600 covers 2,000.
    assert_eq!(l.user.exposures, vec![(1, 0, 1_000_000), (2, 0, 1_000_000)]);
    assert_eq!(l.user.equity, 2_600);
}

#[test]
fn losses_are_paid_by_the_trader_then_the_fund_then_socialized() {
    let mut l = ledger();
    l.registry.insurance_state.vault_balance = 300;
    l.registry.global_haircut = GlobalHaircut { pnl_index: 1_000_000 };
    l.dlp.pnl = -2_000;
    // Every position loses 0.002 a unit: 2,000 on a quantity of 1.0.
    assert_eq!(process_liquidate_user(&mut l, &PORTFOLIO_KEY, &prices(49_999_998_000), false, 0, 9), Ok(()));
    assert_eq!(l.positions, Vec::new());
    assert_eq!(l.user.exposures, Vec::new());
    assert_eq!((l.user.im, l.user.mm), (0, 0));
    // Venue 0: 1,100 at hand, 2,000 lost: the fund pays 300, 600 stay uncovered.
    // Venue 1: 1,000 at hand, 2,000 lost: 1,000 stay uncovered.
    // Venue 2: the same.
    assert_eq!(l.user.lamports, 0);
    assert_eq!(l.user.equity, 100 + 3_000 - 6_000);
    assert_eq!(l.user.pnl, -6_000);
    assert_eq!(l.registry.insurance_state.vault_balance, 0);
    assert_eq!(l.registry.insurance_state.total_payouts, 300);
    assert_eq!(l.registry.insurance_state.uncovered_bad_debt, 2_600);
    // The pool gave back 3,000 of margin and received 3,100 from the trader and 300 from the fund.
    assert_eq!(l.dlp.lamports, 1_000_000 - 3_000 + 3_100 + 300);
    // The pool owed 2,000: 600 of it is cut first (index 0.7), then with 600 owed
    // after receiving 1,400 the next 1,000 take all of it.
    assert_eq!(l.registry.global_haircut.pnl_index, 0);
}

#[test]
fn haircut_falls_in_proportion_to_the_uncovered_loss() {
    let mut l = ledger();
    l.positions.truncate(1);
    l.user = funded([1u8; 32], 100);
    l.user.update_exposure(2, 0, 1_000_000).unwrap();
    l.user.update_margin(1_000, 500);
    l.dlp.pnl = -10_000;
    assert_eq!(l.positions[0].slab_index, 2);
    assert_eq!(process_liquidate_user(&mut l, &PORTFOLIO_KEY, &prices(49_999_998_000), false, 0, 9), Ok(()));
    // 1,100 at hand, 2,000 lost, nothing in the fund: 900 of the 10,000 owed are cut.
    assert_eq!(l.registry.global_haircut.pnl_index, 910_000);
    assert_eq!(l.registry.insurance_state.uncovered_bad_debt, 900);
    assert_eq!(l.dlp.pnl, -10_000 + 1_100);
}

#[test]
fn profit_of_a_closed_position_is_settled() {
    let mut l = ledger();
    assert_eq!(process_liquidate_user(&mut l, &PORTFOLIO_KEY, &prices(50_000_000_100), false, 0, 9), Ok(()));
    assert_eq!(l.user.exposures, vec![(1, 0, 1_000_000), (2, 0, 1_000_000)]);
    assert_eq!((l.user.lamports, l.user.equity, l.user.pnl), (1_200, 1_200, 100));
    assert_eq!(l.dlp.pnl, -100);
}

#[test]
fn a_position_without_an_oracle_price_fails_the_liquidation() {
    let mut l = ledger();
    let before = l.clone();
    assert_eq!(
        process_liquidate_user(&mut l, &PORTFOLIO_KEY, &vec![None, Some(1), Some(1)], false, 0, 9),
        Err(PercolatorError::InvalidOracle)
    );
    assert_eq!(l, before);
    // A venue that is not reached needs no price.
    assert_eq!(
        process_liquidate_user(&mut l, &PORTFOLIO_KEY, &vec![Some(50_000_000_000), None, None], false, 0, 9),
        Ok(())
    );
}

#[test]
fn one_price_for_every_venue_of_the_registry() {
    let mut l = ledger();
    let before = l.clone();
    assert_eq!(
        process_liquidate_user(&mut l, &PORTFOLIO_KEY, &vec![Some(1), Some(1)], false, 0, 9),
        Err(PercolatorError::InvalidInstruction)
    );
    assert_eq!(l, before);
}

#[test]
fn margin_that_the_pool_cannot_return_fails_the_liquidation() {
    let mut l = ledger();
    l.dlp = funded([3u8; 32], 999);
    let before = l.clone();
    assert_eq!(
        process_liquidate_user(&mut l, &PORTFOLIO_KEY, &prices(50_000_000_000), false, 0, 9),
        Err(PercolatorError::InsufficientFunds)
    );
    assert_eq!(l, before);
}

#[test]
fn a_liquidation_needs_the_records_of_the_exposures_that_stay_open() {
    let mut l = ledger();
    // The record of venue 2 is withheld; venue 0 closes and the margin has to be recomputed.
    l.positions.remove(0);
    let before = l.clone();
    assert_eq!(
        process_liquidate_user(&mut l, &PORTFOLIO_KEY, &prices(50_000_000_000), false, 0, 9),
        Err(PercolatorError::InvalidAccount)
    );
    assert_eq!(l, before);
}
