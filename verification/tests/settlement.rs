use percolator::error::PercolatorError;
use percolator::insurance::InsuranceParams;
use percolator::portfolio::Portfolio;
use percolator::position_details::{PositionDetails, POSITION_DETAILS_MAGIC};
use percolator::registry::{SlabRegistry, MAX_SLABS};
use percolator::settlement::{settle_fills, Ledger, SettledSplit, SlabSplit};
use percolator::slab::FillReceipt;

const PORTFOLIO_KEY: [u8; 32] = [7u8; 32];
const VENUE: [u8; 32] = [9u8; 32];
const OTHER_VENUE: [u8; 32] = [10u8; 32];
const ORACLE: [u8; 32] = [5u8; 32];

fn funded(owner: [u8; 32], lamports: u64) -> Portfolio {
    let mut portfolio = Portfolio::new([2u8; 32], owner);
    portfolio.lamports = lamports;
    portfolio.equity = lamports as i128;
    portfolio.principal = lamports as i128;
    portfolio
}

fn ledger(user_lamports: u64, dlp_lamports: u64) -> Ledger {
    Ledger {
        user: funded([1u8; 32], user_lamports),
        dlp: funded([3u8; 32], dlp_lamports),
        registry: SlabRegistry::new([2u8; 32], [4u8; 32], 254),
        positions: Vec::new(),
    }
}

fn fill_on(venue: [u8; 32], side: u8, qty: i64, px: i64) -> SettledSplit {
    SettledSplit {
        split: SlabSplit { slab_id: venue, qty, side, limit_px: px },
        oracle_id: ORACLE,
        position_bump: 255,
        receipt: FillReceipt {
            used: true,
            seqno_committed: 0,
            filled_qty: qty,
            vwap_px: px,
            notional: 0,
            fee: 0,
        },
    }
}

fn fill(side: u8, qty: i64, px: i64) -> SettledSplit {
    fill_on(VENUE, side, qty, px)
}

fn trade(ledger: &mut Ledger, fills: Vec<SettledSplit>, leverage: u8) -> Result<(), PercolatorError> {
    settle_fills(ledger, &PORTFOLIO_KEY, &fills, leverage, 1_000)
}

#[test]
fn open_creates_the_record_and_moves_the_margin() {
    let mut l = ledger(10_000_000_000, 10_000_000_000);
    assert_eq!(trade(&mut l, vec![fill(0, 2_000_000, 50_000_000_000)], 1), Ok(()));
    assert_eq!(
        l.positions,
        vec![PositionDetails {
            magic: POSITION_DETAILS_MAGIC,
            portfolio: PORTFOLIO_KEY,
            slab_index: 0,
            instrument_index: 0,
            bump: 255,
            avg_entry_price: 50_000_000_000,
            total_qty: 2_000_000,
            realized_pnl: 0,
            total_fees: 0,
            trade_count: 2,
            last_update_ts: 1_000,
            margin_held: 2_000_000_000,
            leverage: 1,
        }]
    );
    assert_eq!(l.user.exposures, vec![(0, 0, 2_000_000)]);
    assert_eq!((l.user.lamports, l.user.equity, l.user.principal), (8_000_000_000, 8_000_000_000, 8_000_000_000));
    assert_eq!((l.dlp.lamports, l.dlp.equity, l.dlp.principal), (12_000_000_000, 12_000_000_000, 12_000_000_000));
    assert_eq!((l.user.im, l.user.mm), (2_000_000_000, 1_000_000_000));
    assert_eq!(l.user.pnl, 0);
}

#[test]
fn unknown_venue_registers_itself_with_the_default_entry() {
    let mut l = ledger(10_000_000_000, 10_000_000_000);
    trade(&mut l, vec![fill(0, 1_000_000, 50_000_000_000)], 1).unwrap();
    assert_eq!(l.registry.slabs.len(), 1);
    let entry = l.registry.slabs[0];
    assert_eq!(entry.slab_id, VENUE);
    assert_eq!(entry.oracle_id, ORACLE);
    assert_eq!(entry.version_hash, [0u8; 32]);
    assert_eq!((entry.imr, entry.mmr), (1_000, 500));
    assert_eq!((entry.maker_fee_cap, entry.taker_fee_cap), (0, 0));
    assert_eq!(entry.latency_sla_ms, 1_000);
    assert_eq!(entry.max_exposure, u128::MAX);
    assert_eq!(entry.registered_ts, 0);
    trade(&mut l, vec![fill_on(OTHER_VENUE, 1, 1_000_000, 50_000_000_000)], 1).unwrap();
    trade(&mut l, vec![fill(0, 1_000_000, 50_000_000_000)], 1).unwrap();
    assert_eq!(l.registry.slabs.len(), 2);
    assert_eq!(l.user.exposures, vec![(0, 0, 2_000_000), (1, 0, -1_000_000)]);
}

#[test]
fn leverage_divides_the_margin_of_an_open() {
    let mut l = ledger(10_000_000_000, 0);
    assert_eq!(trade(&mut l, vec![fill(1, 2_000_000, 50_000_000_000)], 10), Ok(()));
    assert_eq!(l.positions[0].margin_held, 200_000_000);
    assert_eq!(l.positions[0].total_qty, -2_000_000);
    assert_eq!(l.positions[0].leverage, 10);
    assert_eq!(l.user.lamports, 9_800_000_000);
    assert_eq!(l.dlp.lamports, 200_000_000);
}

#[test]
fn open_add_then_reduce() {
    // Open 2.0 long @ 50,000; add 1.0 @ 51,000; reduce 1.0 @ 52,000.
    let mut l = ledger(10_000_000_000, 10_000_000_000);
    trade(&mut l, vec![fill(0, 2_000_000, 50_000_000_000)], 1).unwrap();
    trade(&mut l, vec![fill(0, 1_000_000, 51_000_000_000)], 1).unwrap();
    assert_eq!(l.positions[0].avg_entry_price, 50_333_333_333);
    assert_eq!(l.positions[0].total_qty, 3_000_000);
    assert_eq!(l.positions[0].margin_held, 3_000_000_000);
    assert_eq!(l.positions[0].trade_count, 3);
    assert_eq!(l.user.lamports, 7_000_000_000);

    // Leverage plays no part in a reduction.
    trade(&mut l, vec![fill(1, 1_000_000, 52_000_000_000)], 10).unwrap();
    assert_eq!(l.positions[0].total_qty, 2_000_000);
    // A third of the margin held before is released.
    assert_eq!(l.positions[0].margin_held, 2_000_000_000);
    // 1.0 * (52,000 - 50,333.333333)
    assert_eq!(l.positions[0].realized_pnl, 1_666_666_667);
    assert_eq!(l.positions[0].avg_entry_price, 50_333_333_333);
    assert_eq!(l.user.pnl, 1_666_666_667);
    assert_eq!(l.dlp.pnl, -1_666_666_667);
    assert_eq!(l.user.lamports, 9_666_666_667);
    assert_eq!(l.user.equity, 9_666_666_667);
    assert_eq!(l.user.principal, 8_000_000_000);
    assert_eq!(l.dlp.lamports, 10_333_333_333);
    assert_eq!(l.user.exposures, vec![(0, 0, 2_000_000)]);
    assert_eq!((l.user.im, l.user.mm), (2_000_000_000, 1_000_000_000));
}

#[test]
fn reduce_from_a_fresh_position_realizes_two_thousand() {
    let mut l = ledger(10_000_000_000, 10_000_000_000);
    trade(&mut l, vec![fill(0, 2_000_000, 50_000_000_000)], 1).unwrap();
    trade(&mut l, vec![fill(1, 1_000_000, 52_000_000_000)], 1).unwrap();
    assert_eq!(l.positions[0].realized_pnl, 2_000_000_000);
    assert_eq!(l.positions[0].total_qty, 1_000_000);
    assert_eq!(l.positions[0].margin_held, 1_000_000_000);
}

#[test]
fn a_fill_that_offsets_the_position_closes_it() {
    let mut l = ledger(10_000_000_000, 10_000_000_000);
    trade(&mut l, vec![fill(0, 2_000_000, 50_000_000_000)], 1).unwrap();
    trade(&mut l, vec![fill(1, 2_000_000, 49_000_000_000)], 1).unwrap();
    assert_eq!(l.positions, Vec::new());
    assert_eq!(l.user.exposures, Vec::new());
    assert_eq!((l.user.im, l.user.mm), (0, 0));
    assert_eq!(l.user.pnl, -2_000_000_000);
    assert_eq!(l.user.lamports, 8_000_000_000);
    assert_eq!(l.dlp.lamports, 12_000_000_000);
    assert_eq!(l.user.principal, 10_000_000_000);
}

#[test]
fn reversal_closes_the_old_position_and_opens_the_rest() {
    let mut l = ledger(10_000_000_000, 10_000_000_000);
    trade(&mut l, vec![fill(0, 2_000_000, 50_000_000_000)], 1).unwrap();
    trade(&mut l, vec![fill(1, 3_000_000, 52_000_000_000)], 2).unwrap();
    assert_eq!(
        l.positions,
        vec![PositionDetails {
            magic: POSITION_DETAILS_MAGIC,
            portfolio: PORTFOLIO_KEY,
            slab_index: 0,
            instrument_index: 0,
            bump: 255,
            avg_entry_price: 52_000_000_000,
            total_qty: -1_000_000,
            realized_pnl: 0,
            total_fees: 0,
            trade_count: 2,
            last_update_ts: 1_000,
            // The margin of opening 1.0 at leverage 2, and nothing of the old position.
            margin_held: 500_000_000,
            leverage: 2,
        }]
    );
    assert_eq!(l.user.exposures, vec![(0, 0, -1_000_000)]);
    assert_eq!(l.user.pnl, 4_000_000_000);
    assert_eq!(l.user.lamports, 10_000_000_000 - 500_000_000 + 4_000_000_000);
    assert_eq!(l.dlp.lamports, 10_000_000_000 + 500_000_000 - 4_000_000_000);
    assert_eq!((l.user.im, l.user.mm), (500_000_000, 250_000_000));
}

#[test]
fn reversal_equals_a_full_reduce_followed_by_an_open() {
    let mut whole = ledger(10_000_000_000, 10_000_000_000);
    trade(&mut whole, vec![fill(1, 2_000_000, 50_000_000_000)], 1).unwrap();
    let mut stepwise = whole.clone();
    trade(&mut whole, vec![fill(0, 5_000_000, 49_000_000_000)], 5).unwrap();
    trade(&mut stepwise, vec![fill(0, 2_000_000, 49_000_000_000)], 5).unwrap();
    trade(&mut stepwise, vec![fill(0, 3_000_000, 49_000_000_000)], 5).unwrap();
    assert_eq!(whole, stepwise);
    assert_eq!(whole.positions[0].total_qty, 3_000_000);
    assert_eq!(whole.positions[0].margin_held, 600_000_000);
    assert_eq!(whole.user.pnl, 2_000_000_000);
}

#[test]
fn fills_of_one_trade_apply_in_order_and_settle_once() {
    let mut l = ledger(10_000_000_000, 10_000_000_000);
    trade(&mut l, vec![fill(0, 2_000_000, 50_000_000_000)], 1).unwrap();
    let fills = vec![
        fill(1, 1_000_000, 52_000_000_000),
        fill_on(OTHER_VENUE, 1, 1_000_000, 30_000_000_000),
        fill(1, 1_000_000, 49_000_000_000),
    ];
    assert_eq!(trade(&mut l, fills, 1), Ok(()));
    assert_eq!(l.user.exposures, vec![(1, 0, -1_000_000)]);
    assert_eq!(l.positions.len(), 1);
    assert_eq!(l.positions[0].slab_index, 1);
    // +2,000 on the first fill, -1,000 on the third.
    assert_eq!(l.user.pnl, 1_000_000_000);
    assert_eq!(l.user.lamports, 10_000_000_000 - 1_000_000_000 + 1_000_000_000);
    assert_eq!((l.user.im, l.user.mm), (1_000_000_000, 500_000_000));
}

#[test]
fn insurance_takes_its_share_of_the_taker_notional() {
    let mut l = ledger(10_000_000_000, 10_000_000_000);
    l.registry.insurance_params = InsuranceParams { fee_bps_to_insurance: 10 };
    let fills = vec![
        fill(0, 2_000_000, 50_000_000_000),
        fill_on(OTHER_VENUE, 1, 1_000_000, 30_000_000_000),
    ];
    trade(&mut l, fills, 1).unwrap();
    // Notional 100,000 + 30,000 in six decimals, 10 basis points of it.
    assert_eq!(l.registry.insurance_state.vault_balance, 130_000_000);
    assert_eq!(l.registry.insurance_state.total_fees_accrued, 130_000_000);
}

#[test]
fn a_trade_that_breaches_the_margin_is_refused_entirely() {
    let mut l = ledger(2_000_000_000, 10_000_000_000);
    l.registry.insurance_params = InsuranceParams { fee_bps_to_insurance: 10 };
    let before = l.clone();
    // The margin of 2.0 at leverage 1 takes all of the equity.
    assert_eq!(
        trade(&mut l, vec![fill(0, 2_000_000, 50_000_000_000)], 1),
        Err(PercolatorError::PortfolioInsufficientMargin)
    );
    assert_eq!(l, before);
    assert_eq!(l.user.exposures, Vec::new());
    assert_eq!(l.positions, Vec::new());
    assert_eq!(l.registry.slabs.len(), 0);
    // At leverage 2 half of the equity stays, which is the maintenance margin.
    assert_eq!(trade(&mut l, vec![fill(0, 2_000_000, 50_000_000_000)], 2), Ok(()));
    assert_eq!((l.user.equity, l.user.mm), (1_000_000_000, 500_000_000));
}

#[test]
fn a_refusal_of_a_later_fill_undoes_the_earlier_ones() {
    let mut l = ledger(10_000_000_000, 10_000_000_000);
    let before = l.clone();
    let mut unwritten = fill_on(OTHER_VENUE, 0, 1_000_000, 50_000_000_000);
    unwritten.receipt.used = false;
    assert_eq!(
        trade(&mut l, vec![fill(0, 2_000_000, 50_000_000_000), unwritten], 1),
        Err(PercolatorError::InvalidReceipt)
    );
    assert_eq!(l, before);
}

#[test]
fn trade_whose_margin_exceeds_the_balance_is_refused() {
    let mut l = ledger(1_999_999_999, 10_000_000_000);
    let before = l.clone();
    assert_eq!(
        trade(&mut l, vec![fill(0, 2_000_000, 50_000_000_000)], 1),
        Err(PercolatorError::InsufficientFunds)
    );
    assert_eq!(l, before);
}

#[test]
fn profit_beyond_the_pool_is_refused() {
    let mut l = ledger(10_000_000_000, 0);
    trade(&mut l, vec![fill(0, 2_000_000, 50_000_000_000)], 1).unwrap();
    let before = l.clone();
    assert_eq!(
        trade(&mut l, vec![fill(1, 2_000_000, 52_000_000_000)], 1),
        Err(PercolatorError::InsufficientFunds)
    );
    assert_eq!(l, before);
}

#[test]
fn receipt_without_a_fill_is_refused() {
    let mut l = ledger(10_000_000_000, 10_000_000_000);
    let mut empty = fill(0, 1_000_000, 50_000_000_000);
    empty.receipt.filled_qty = 0;
    assert_eq!(trade(&mut l, vec![empty], 1), Err(PercolatorError::InvalidReceipt));
    let mut negative = fill(0, 1_000_000, 50_000_000_000);
    negative.receipt.filled_qty = -1;
    assert_eq!(trade(&mut l, vec![negative], 1), Err(PercolatorError::InvalidReceipt));
}

#[test]
fn unknown_side_is_refused() {
    let mut l = ledger(10_000_000_000, 10_000_000_000);
    assert_eq!(trade(&mut l, vec![fill(2, 1_000_000, 50_000_000_000)], 1), Err(PercolatorError::InvalidSide));
}

#[test]
fn leverage_outside_one_to_ten_is_refused() {
    let mut l = ledger(10_000_000_000, 10_000_000_000);
    let before = l.clone();
    assert_eq!(trade(&mut l, vec![fill(0, 1_000_000, 50_000_000_000)], 0), Err(PercolatorError::InvalidInstruction));
    assert_eq!(trade(&mut l, vec![fill(0, 1_000_000, 50_000_000_000)], 11), Err(PercolatorError::InvalidInstruction));
    assert_eq!(l, before);
    assert_eq!(trade(&mut l, vec![fill(0, 1_000_000, 50_000_000_000)], 10), Ok(()));
}

#[test]
fn quantity_beyond_the_range_is_refused() {
    let mut l = ledger(u64::MAX, 0);
    l.positions.push(PositionDetails::new(PORTFOLIO_KEY, 0, 0, 1, i64::MAX, 0, 255, 1, 1));
    l.registry
        .register_slab(VENUE, [0u8; 32], ORACLE, 1_000, 500, 0, 0, 1_000, u128::MAX, 0)
        .unwrap();
    assert_eq!(trade(&mut l, vec![fill(0, 1, 1)], 1), Err(PercolatorError::Overflow));
    l.positions[0].total_qty = 5;
    l.positions[0].trade_count = u32::MAX;
    assert_eq!(trade(&mut l, vec![fill(0, 1, 1)], 1), Err(PercolatorError::Overflow));
    assert_eq!(trade(&mut l, vec![fill(1, 1, 1)], 1), Err(PercolatorError::Overflow));
}

#[test]
fn a_full_registry_refuses_an_unknown_venue() {
    let mut l = ledger(10_000_000_000, 10_000_000_000);
    for i in 0..MAX_SLABS {
        let mut id = [0u8; 32];
        id[0] = (i % 256) as u8;
        id[1] = 1;
        l.registry
            .register_slab(id, [0u8; 32], ORACLE, 1_000, 500, 0, 0, 1_000, u128::MAX, 0)
            .unwrap();
    }
    assert_eq!(
        trade(&mut l, vec![fill(0, 1_000_000, 50_000_000_000)], 1),
        Err(PercolatorError::InvalidAccount)
    );
    let mut known = [0u8; 32];
    known[0] = 200;
    known[1] = 1;
    assert_eq!(trade(&mut l, vec![fill_on(known, 0, 1_000_000, 50_000_000_000)], 1), Ok(()));
    assert_eq!(l.user.exposures, vec![(200, 0, 1_000_000)]);
}

#[test]
fn a_trade_without_fills_recomputes_the_margin() {
    let mut l = ledger(10_000_000_000, 10_000_000_000);
    l.user.update_margin(77, 70);
    assert_eq!(trade(&mut l, Vec::new(), 1), Ok(()));
    assert_eq!((l.user.im, l.user.mm), (0, 0));
}

#[test]
fn ledger_snapshot_copies_everything() {
    let mut l = ledger(10_000_000_000, 10_000_000_000);
    trade(&mut l, vec![fill(0, 2_000_000, 50_000_000_000)], 1).unwrap();
    assert_eq!(l.snapshot(), l);
}

#[test]
fn an_open_exposure_without_its_record_refuses_the_trade() {
    // An exposure on venue 5, no record of it, equity below the margin on file.
    let mut l = ledger(0, 0);
    l.user.update_exposure(5, 0, 1_000_000).unwrap();
    l.user.update_margin(1_000, 500);
    let before = l.clone();
    assert_eq!(trade(&mut l, Vec::new(), 1), Err(PercolatorError::InvalidAccount));
    assert_eq!(l, before);
    assert_eq!((l.user.im, l.user.mm), (1_000, 500));
    // With the record at hand the margin is that of the record, and the trade is judged by it.
    l.positions.push(PositionDetails::new(PORTFOLIO_KEY, 5, 0, 1, 1_000_000, 0, 255, 1_000, 1));
    assert_eq!(trade(&mut l, Vec::new(), 1), Err(PercolatorError::PortfolioInsufficientMargin));
    l.user.equity = 500;
    assert_eq!(trade(&mut l, Vec::new(), 1), Ok(()));
    assert_eq!((l.user.im, l.user.mm), (1_000, 500));
}

#[test]
fn a_trade_on_one_venue_needs_the_records_of_the_others() {
    let mut l = ledger(10_000_000_000, 10_000_000_000);
    trade(&mut l, vec![fill(0, 2_000_000, 50_000_000_000)], 1).unwrap();
    trade(&mut l, vec![fill_on(OTHER_VENUE, 0, 1_000_000, 50_000_000_000)], 1).unwrap();
    assert_eq!((l.user.im, l.user.mm), (3_000_000_000, 1_500_000_000));
    // The record of the first venue is withheld.
    let mut partial = l.clone();
    partial.positions.remove(0);
    let before = partial.clone();
    assert_eq!(
        trade(&mut partial, vec![fill_on(OTHER_VENUE, 0, 1_000_000, 50_000_000_000)], 1),
        Err(PercolatorError::InvalidAccount)
    );
    assert_eq!(partial, before);
    assert_eq!(trade(&mut l, vec![fill_on(OTHER_VENUE, 0, 1_000_000, 50_000_000_000)], 1), Ok(()));
    assert_eq!(l.user.im, 4_000_000_000);
}
