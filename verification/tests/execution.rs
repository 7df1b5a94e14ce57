use percolator::error::PercolatorError;
use percolator::execution::{process_execute_cross_slab, resolve_split_prices, Venue};
use percolator::portfolio::Portfolio;
use percolator::registry::SlabRegistry;
use percolator::settlement::{Ledger, SlabSplit};
use percolator::slab::{FillReceipt, QuoteCache, SlabHeader, SlabState};
use percolator::vesting::{GlobalHaircut, PnlVestingParams};

const PORTFOLIO_KEY: [u8; 32] = [7u8; 32];
const USER: [u8; 32] = [1u8; 32];
const AUTHORITY: [u8; 32] = [4u8; 32];
const VENUE_A: [u8; 32] = [9u8; 32];
const VENUE_B: [u8; 32] = [10u8; 32];
const ORACLE_PX: i64 = 50_000_000_000;

fn funded(owner: [u8; 32], lamports: u64) -> Portfolio {
    let mut portfolio = Portfolio::new([2u8; 32], owner);
    portfolio.lamports = lamports;
    portfolio.equity = lamports as i128;
    portfolio.principal = lamports as i128;
    portfolio
}

fn ledger() -> Ledger {
    Ledger {
        user: funded(USER, 10_000_000_000),
        dlp: funded([3u8; 32], 10_000_000_000),
        registry: SlabRegistry::new([2u8; 32], [6u8; 32], 254),
        positions: Vec::new(),
    }
}

fn venue(seqno: u32) -> Venue {
    Venue {
        slab: SlabState {
            header: SlabHeader {
                seqno,
                lp_owner: [3u8; 32],
                router_id: AUTHORITY,
                instrument: [8u8; 32],
                mark_px: ORACLE_PX,
                taker_fee_bps: 5,
                contract_size: 1_000_000,
                bump: 253,
            },
            quote_cache: QuoteCache::new(),
        },
        receipt: FillReceipt::new(),
        oracle_id: [5u8; 32],
        position_bump: 255,
    }
}

fn split(slab_id: [u8; 32], side: u8, qty: i64, limit_px: i64) -> SlabSplit {
    SlabSplit { slab_id, qty, side, limit_px }
}

fn execute(
    l: &mut Ledger,
    venues: &mut Vec<Venue>,
    oracles: Vec<Option<i64>>,
    splits: Vec<SlabSplit>,
    order_type: u8,
    leverage: u8,
) -> Result<(), PercolatorError> {
    process_execute_cross_slab(
        l,
        &PORTFOLIO_KEY,
        &USER,
        &AUTHORITY,
        Some((AUTHORITY, 250)),
        venues,
        &oracles,
        &splits,
        order_type,
        leverage,
        100,
        1_000,
    )
}

#[test]
fn limit_order_executes_at_its_limit_price() {
    let mut l = ledger();
    let mut venues = vec![venue(7)];
    let result = execute(
        &mut l,
        &mut venues,
        vec![Some(ORACLE_PX)],
        vec![split(VENUE_A, 0, 2_000_000, 51_000_000_000)],
        1,
        1,
    );
    assert_eq!(result, Ok(()));
    assert_eq!(venues[0].slab.header.seqno, 8);
    assert_eq!(
        venues[0].receipt,
        FillReceipt {
            used: true,
            seqno_committed: 7,
            filled_qty: 2_000_000,
            vwap_px: 51_000_000_000,
            notional: 102_000_000_000,
            fee: 51_000_000,
        }
    );
    assert_eq!(l.positions.len(), 1);
    assert_eq!(l.positions[0].avg_entry_price, 51_000_000_000);
    assert_eq!(l.positions[0].total_qty, 2_000_000);
    assert_eq!(l.positions[0].margin_held, 2_000_000_000);
    assert_eq!(l.user.exposures, vec![(0, 0, 2_000_000)]);
    assert_eq!(l.user.lamports, 8_000_000_000);
    assert_eq!(l.user.last_slot, 100);
    assert_eq!(l.registry.slabs[0].slab_id, VENUE_A);
    assert_eq!(l.registry.slabs[0].oracle_id, [5u8; 32]);
}

#[test]
fn market_trade_fills_at_the_oracle_price() {
    let mut l = ledger();
    let mut venues = vec![venue(0)];
    // The limit price of a market order plays no part.
    let result = execute(&mut l, &mut venues, vec![Some(ORACLE_PX)], vec![split(VENUE_A, 1, 1_000_000, 1)], 0, 10);
    assert_eq!(result, Ok(()));
    assert_eq!(venues[0].receipt.vwap_px, ORACLE_PX);
    assert_eq!(l.positions[0].avg_entry_price, ORACLE_PX);
    assert_eq!(l.positions[0].total_qty, -1_000_000);
    assert_eq!(l.positions[0].margin_held, 100_000_000);
}

#[test]
fn trade_over_two_venues() {
    let mut l = ledger();
    let mut venues = vec![venue(3), venue(9)];
    let result = execute(
        &mut l,
        &mut venues,
        vec![Some(ORACLE_PX), Some(30_000_000_000)],
        vec![split(VENUE_A, 0, 2_000_000, ORACLE_PX), split(VENUE_B, 1, 1_000_000, 31_000_000_000)],
        1,
        2,
    );
    assert_eq!(result, Ok(()));
    assert_eq!((venues[0].slab.header.seqno, venues[1].slab.header.seqno), (4, 10));
    assert_eq!(l.user.exposures, vec![(0, 0, 2_000_000), (1, 0, -1_000_000)]);
    assert_eq!((l.user.im, l.user.mm), (1_500_000_000, 750_000_000));
    assert_eq!(l.user.lamports, 8_500_000_000);
}

#[test]
fn limit_price_outside_the_band_fails_before_any_venue_is_called() {
    let mut l = ledger();
    let before = l.clone();
    let mut venues = vec![venue(3), venue(9)];
    let venues_before = venues.clone();
    let result = execute(
        &mut l,
        &mut venues,
        vec![Some(ORACLE_PX), Some(ORACLE_PX)],
        vec![split(VENUE_A, 0, 2_000_000, ORACLE_PX), split(VENUE_B, 0, 1_000_000, 61_000_000_000)],
        1,
        1,
    );
    assert_eq!(result, Err(PercolatorError::InvalidPrice));
    assert_eq!(l, before);
    assert_eq!(venues, venues_before);
}

#[test]
fn missing_oracle_price_fails_the_trade() {
    let mut l = ledger();
    let before = l.clone();
    let mut venues = vec![venue(3)];
    let result = execute(&mut l, &mut venues, vec![None], vec![split(VENUE_A, 0, 2_000_000, ORACLE_PX)], 0, 1);
    assert_eq!(result, Err(PercolatorError::InvalidOracle));
    assert_eq!(l, before);
    assert_eq!(venues, vec![venue(3)]);
}

#[test]
fn foreign_portfolio_is_refused() {
    let mut l = ledger();
    l.user.user = [99u8; 32];
    let mut venues = vec![venue(3)];
    let result = execute(&mut l, &mut venues, vec![Some(ORACLE_PX)], vec![split(VENUE_A, 0, 1, ORACLE_PX)], 0, 1);
    assert_eq!(result, Err(PercolatorError::InvalidPortfolio));
}

#[test]
fn split_counts_must_match_and_lie_between_one_and_eight() {
    let mut l = ledger();
    let mut venues = vec![venue(3)];
    assert_eq!(
        execute(&mut l, &mut Vec::new(), Vec::new(), Vec::new(), 0, 1),
        Err(PercolatorError::InvalidInstruction)
    );
    assert_eq!(
        execute(&mut l, &mut venues, vec![Some(ORACLE_PX), Some(ORACLE_PX)], vec![split(VENUE_A, 0, 1, ORACLE_PX)], 0, 1),
        Err(PercolatorError::InvalidInstruction)
    );
    assert_eq!(
        execute(&mut l, &mut Vec::new(), vec![Some(ORACLE_PX)], vec![split(VENUE_A, 0, 1, ORACLE_PX)], 0, 1),
        Err(PercolatorError::InvalidInstruction)
    );
    let mut nine: Vec<Venue> = (0..9).map(|_| venue(0)).collect();
    let splits: Vec<SlabSplit> = (0..9).map(|i| split([i as u8; 32], 0, 1, ORACLE_PX)).collect();
    assert_eq!(
        execute(&mut l, &mut nine, vec![Some(ORACLE_PX); 9], splits, 0, 1),
        Err(PercolatorError::InvalidInstruction)
    );
    assert_eq!(l, ledger());
}

#[test]
fn eight_splits_are_accepted() {
    let mut l = ledger();
    let mut venues: Vec<Venue> = (0..8).map(|_| venue(0)).collect();
    let splits: Vec<SlabSplit> = (0..8).map(|i| split([20 + i as u8; 32], 0, 100_000, ORACLE_PX)).collect();
    assert_eq!(execute(&mut l, &mut venues, vec![Some(ORACLE_PX); 8], splits, 0, 1), Ok(()));
    assert_eq!(l.positions.len(), 8);
    assert_eq!(l.user.im, 800_000_000);
}

#[test]
fn trade_with_an_unknown_order_type_is_refused() {
    let mut l = ledger();
    let mut venues = vec![venue(3)];
    let result = execute(&mut l, &mut venues, vec![Some(ORACLE_PX)], vec![split(VENUE_A, 0, 1, ORACLE_PX)], 2, 1);
    assert_eq!(result, Err(PercolatorError::InvalidOrderType));
}

#[test]
fn venue_of_another_router_refuses_and_nothing_changes() {
    let mut l = ledger();
    let mut venues = vec![venue(3), venue(5)];
    venues[1].slab.header.router_id = [77u8; 32];
    let venues_before = venues.clone();
    let result = execute(
        &mut l,
        &mut venues,
        vec![Some(ORACLE_PX), Some(ORACLE_PX)],
        vec![split(VENUE_A, 0, 1_000_000, ORACLE_PX), split(VENUE_B, 0, 1_000_000, ORACLE_PX)],
        0,
        1,
    );
    assert_eq!(result, Err(PercolatorError::Unauthorized));
    assert_eq!(l, ledger());
    assert_eq!(venues, venues_before);
}

#[test]
fn venue_refuses_a_quantity_that_is_not_positive() {
    let mut l = ledger();
    let mut venues = vec![venue(3)];
    let result = execute(&mut l, &mut venues, vec![Some(ORACLE_PX)], vec![split(VENUE_A, 0, 0, ORACLE_PX)], 0, 1);
    assert_eq!(result, Err(PercolatorError::InvalidQuantity));
    let result = execute(&mut l, &mut venues, vec![Some(-5)], vec![split(VENUE_A, 0, 1, ORACLE_PX)], 0, 1);
    assert_eq!(result, Err(PercolatorError::InvalidPrice));
    let result = execute(&mut l, &mut venues, vec![Some(ORACLE_PX)], vec![split(VENUE_A, 3, 1, ORACLE_PX)], 0, 1);
    assert_eq!(result, Err(PercolatorError::InvalidSide));
    assert_eq!(venues, vec![venue(3)]);
}

#[test]
fn margin_breach_undoes_the_fills_on_the_venues() {
    let mut l = ledger();
    l.user = funded(USER, 2_000_000_000);
    let before = l.clone();
    let mut venues = vec![venue(3)];
    let result = execute(&mut l, &mut venues, vec![Some(ORACLE_PX)], vec![split(VENUE_A, 0, 2_000_000, ORACLE_PX)], 0, 1);
    assert_eq!(result, Err(PercolatorError::PortfolioInsufficientMargin));
    assert_eq!(l, before);
    assert_eq!(venues, vec![venue(3)]);
}

#[test]
fn vesting_touch_runs_before_the_margin_is_checked() {
    let mut l = ledger();
    l.user.pnl = 1_000;
    l.user.pnl_index_checkpoint = 1_000_000;
    l.registry.global_haircut = GlobalHaircut { pnl_index: 500_000 };
    l.registry.pnl_vesting_params = PnlVestingParams { vesting_slots: 400 };
    let mut venues = vec![venue(3)];
    execute(&mut l, &mut venues, vec![Some(ORACLE_PX)], vec![split(VENUE_A, 0, 1_000_000, ORACLE_PX)], 0, 1).unwrap();
    // A quarter of the schedule has run: 250 vest, half of the other 750 is cut.
    assert_eq!(l.user.vested_pnl, 250);
    assert_eq!(l.user.pnl, 375);
    assert_eq!(l.user.equity, 10_000_000_000 - 375 - 1_000_000_000);
    assert_eq!(l.user.last_slot, 100);
    assert_eq!(l.user.pnl_index_checkpoint, 500_000);
}

#[test]
fn prices_resolve_in_the_order_of_the_splits() {
    let splits = vec![split(VENUE_A, 0, 1, 45_000_000_000), split(VENUE_B, 1, 1, 70_000_000_000)];
    assert_eq!(
        resolve_split_prices(&splits, &vec![Some(ORACLE_PX), Some(60_000_000_000)], 1),
        Ok(vec![45_000_000_000, 70_000_000_000])
    );
    assert_eq!(
        resolve_split_prices(&splits, &vec![Some(ORACLE_PX), Some(60_000_000_000)], 0),
        Ok(vec![ORACLE_PX, 60_000_000_000])
    );
    assert_eq!(
        resolve_split_prices(&splits, &vec![Some(60_000_000_000), None], 1),
        Err(PercolatorError::InvalidPrice)
    );
    assert_eq!(
        resolve_split_prices(&splits, &vec![Some(ORACLE_PX), None], 1),
        Err(PercolatorError::InvalidOracle)
    );
    assert_eq!(resolve_split_prices(&splits, &vec![None, None], 2), Err(PercolatorError::InvalidOracle));
    assert_eq!(
        resolve_split_prices(&splits, &vec![Some(ORACLE_PX), Some(ORACLE_PX)], 2),
        Err(PercolatorError::InvalidOrderType)
    );
}

#[test]
fn authority_must_stand_at_its_derived_address() {
    let mut l = ledger();
    let mut venues = vec![venue(3)];
    let splits = vec![split(VENUE_A, 0, 1_000_000, ORACLE_PX)];
    let oracles = vec![Some(ORACLE_PX)];
    for derived in [None, Some(([77u8; 32], 250))] {
        let result = process_execute_cross_slab(
            &mut l,
            &PORTFOLIO_KEY,
            &USER,
            &AUTHORITY,
            derived,
            &mut venues,
            &oracles,
            &splits,
            0,
            1,
            100,
            1_000,
        );
        assert_eq!(result, Err(PercolatorError::InvalidAccount));
        assert_eq!(l, ledger());
        assert_eq!(venues, vec![venue(3)]);
    }
    // The order type is looked at before the authority, the oracle after it.
    let result = process_execute_cross_slab(
        &mut l, &PORTFOLIO_KEY, &USER, &AUTHORITY, None, &mut venues, &oracles, &splits, 2, 1, 100, 1_000,
    );
    assert_eq!(result, Err(PercolatorError::InvalidOrderType));
    let result = process_execute_cross_slab(
        &mut l, &PORTFOLIO_KEY, &USER, &AUTHORITY, None, &mut venues, &vec![None], &splits, 0, 1, 100, 1_000,
    );
    assert_eq!(result, Err(PercolatorError::InvalidAccount));
}
