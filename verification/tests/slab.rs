use percolator::error::PercolatorError;
use percolator::slab::{
    process_commit_fill, update_quote_cache_after_fill, FillReceipt, OrderType, QuoteCache,
    QuoteLevel, Side, SlabHeader, SlabState,
};

const ROUTER: [u8; 32] = [4u8; 32];

fn slab(seqno: u32, taker_fee_bps: i64) -> SlabState {
    SlabState {
        header: SlabHeader {
            seqno,
            lp_owner: [1u8; 32],
            router_id: ROUTER,
            instrument: [3u8; 32],
            mark_px: 50_000_000_000,
            taker_fee_bps,
            contract_size: 1_000_000,
            bump: 254,
        },
        quote_cache: QuoteCache::new(),
    }
}

const EMPTY: QuoteLevel = QuoteLevel { px: 0, avail_qty: 0 };

#[test]
fn fill_writes_the_receipt_and_moves_the_sequence_number() {
    let mut venue = slab(41, 5);
    let mut receipt = FillReceipt::new();
    let result = process_commit_fill(
        &mut venue,
        &mut receipt,
        &ROUTER,
        41,
        OrderType::Limit,
        Side::Buy,
        2_000_000,
        50_000_000_000,
    );
    assert_eq!(result, Ok(()));
    assert_eq!(
        receipt,
        FillReceipt {
            used: true,
            seqno_committed: 41,
            filled_qty: 2_000_000,
            vwap_px: 50_000_000_000,
            // 2.0 * 50,000
            notional: 100_000_000_000,
            // 5 basis points of the notional
            fee: 50_000_000,
        }
    );
    assert!(receipt.is_used());
    assert_eq!(venue.header.seqno, 42);
    assert_eq!(venue.quote_cache.seqno_snapshot, 42);
    let level = QuoteLevel { px: 50_000_000_000, avail_qty: 2_000_000 };
    assert_eq!(venue.quote_cache.best_bids, [level, EMPTY, EMPTY, EMPTY]);
    assert_eq!(venue.quote_cache.best_asks, [EMPTY; 4]);
    let mut expected_header = slab(41, 5).header;
    expected_header.seqno = 42;
    assert_eq!(venue.header, expected_header);
}

#[test]
fn sell_is_cached_as_an_ask() {
    let mut venue = slab(0, 0);
    let mut receipt = FillReceipt::new();
    process_commit_fill(&mut venue, &mut receipt, &ROUTER, 0, OrderType::Market, Side::Sell, 7, 9).unwrap();
    assert_eq!(venue.quote_cache.best_asks, [QuoteLevel { px: 9, avail_qty: 7 }, EMPTY, EMPTY, EMPTY]);
    assert_eq!(venue.quote_cache.best_bids, [EMPTY; 4]);
    assert_eq!((receipt.notional, receipt.fee), (0, 0));
}

#[test]
fn negative_fee_rate_rounds_toward_zero() {
    let mut venue = slab(0, -3);
    let mut receipt = FillReceipt::new();
    process_commit_fill(&mut venue, &mut receipt, &ROUTER, 0, OrderType::Limit, Side::Buy, 1_000_000, 5_000).unwrap();
    assert_eq!(receipt.notional, 5_000);
    // -15,000 / 10,000
    assert_eq!(receipt.fee, -1);
}

#[test]
fn stale_sequence_fence_is_refused_and_changes_nothing() {
    let mut venue = slab(42, 5);
    let mut receipt = FillReceipt::new();
    receipt.write(40, 1, 2, 3, 4);
    let receipt_before = receipt;
    let result = process_commit_fill(
        &mut venue,
        &mut receipt,
        &ROUTER,
        41,
        OrderType::Limit,
        Side::Buy,
        2_000_000,
        50_000_000_000,
    );
    assert_eq!(result, Err(PercolatorError::SeqnoMismatch));
    assert_eq!(venue, slab(42, 5));
    assert_eq!(receipt, receipt_before);
}

#[test]
fn foreign_router_is_refused_first() {
    let mut venue = slab(42, 5);
    let mut receipt = FillReceipt::new();
    let result = process_commit_fill(&mut venue, &mut receipt, &[5u8; 32], 41, OrderType::Limit, Side::Buy, 0, 0);
    assert_eq!(result, Err(PercolatorError::Unauthorized));
    assert_eq!(venue, slab(42, 5));
    assert_eq!(receipt, FillReceipt::new());
}

#[test]
fn quantity_and_price_must_be_positive() {
    let mut venue = slab(42, 5);
    let mut receipt = FillReceipt::new();
    assert_eq!(
        process_commit_fill(&mut venue, &mut receipt, &ROUTER, 42, OrderType::Limit, Side::Buy, 0, 0),
        Err(PercolatorError::InvalidQuantity)
    );
    assert_eq!(
        process_commit_fill(&mut venue, &mut receipt, &ROUTER, 42, OrderType::Limit, Side::Buy, -1, 5),
        Err(PercolatorError::InvalidQuantity)
    );
    assert_eq!(
        process_commit_fill(&mut venue, &mut receipt, &ROUTER, 42, OrderType::Limit, Side::Sell, 1, 0),
        Err(PercolatorError::InvalidPrice)
    );
    assert_eq!(
        process_commit_fill(&mut venue, &mut receipt, &ROUTER, 42, OrderType::Limit, Side::Sell, 1, -5),
        Err(PercolatorError::InvalidPrice)
    );
    assert_eq!(venue, slab(42, 5));
    assert_eq!(receipt, FillReceipt::new());
}

#[test]
fn figures_beyond_the_receipt_are_refused() {
    let mut venue = slab(42, 5);
    let mut receipt = FillReceipt::new();
    assert_eq!(
        process_commit_fill(&mut venue, &mut receipt, &ROUTER, 42, OrderType::Limit, Side::Buy, i64::MAX, i64::MAX),
        Err(PercolatorError::Overflow)
    );
    let mut greedy = slab(42, i64::MAX);
    assert_eq!(
        process_commit_fill(&mut greedy, &mut receipt, &ROUTER, 42, OrderType::Limit, Side::Buy, 1_000_000, i64::MAX),
        Err(PercolatorError::Overflow)
    );
    let mut last = slab(u32::MAX, 5);
    assert_eq!(
        process_commit_fill(&mut last, &mut receipt, &ROUTER, u32::MAX, OrderType::Limit, Side::Buy, 1, 1),
        Err(PercolatorError::Overflow)
    );
    assert_eq!(venue, slab(42, 5));
    assert_eq!(greedy, slab(42, i64::MAX));
    assert_eq!(last, slab(u32::MAX, 5));
    assert_eq!(receipt, FillReceipt::new());
}

#[test]
fn largest_notional_that_fits_is_accepted() {
    let mut venue = slab(0, 0);
    let mut receipt = FillReceipt::new();
    assert_eq!(
        process_commit_fill(&mut venue, &mut receipt, &ROUTER, 0, OrderType::Limit, Side::Buy, 1_000_000, i64::MAX),
        Ok(())
    );
    assert_eq!(receipt.notional, i64::MAX);
}

#[test]
fn cache_keeps_the_best_four_levels() {
    let mut cache = QuoteCache::new();
    let levels: Vec<QuoteLevel> = (1..=6).map(|i| QuoteLevel { px: i, avail_qty: 10 * i }).collect();
    cache.update(9, &levels, &levels[..2]);
    assert_eq!(cache.seqno_snapshot, 9);
    assert_eq!(cache.best_bids, [levels[0], levels[1], levels[2], levels[3]]);
    assert_eq!(cache.best_asks, [levels[0], levels[1], EMPTY, EMPTY]);
    update_quote_cache_after_fill(&mut cache, 10, Side::Sell, 3, 4);
    assert_eq!(cache.seqno_snapshot, 10);
    assert_eq!(cache.best_bids, [EMPTY; 4]);
    assert_eq!(cache.best_asks, [QuoteLevel { px: 3, avail_qty: 4 }, EMPTY, EMPTY, EMPTY]);
}

#[test]
fn sides_and_order_types_have_their_bytes() {
    assert_eq!(Side::from_u8(0), Ok(Side::Buy));
    assert_eq!(Side::from_u8(1), Ok(Side::Sell));
    assert_eq!(Side::from_u8(2), Err(PercolatorError::InvalidSide));
    assert_eq!((Side::Buy.to_u8(), Side::Sell.to_u8()), (0, 1));
    assert_eq!(OrderType::from_u8(0), Ok(OrderType::Market));
    assert_eq!(OrderType::from_u8(1), Ok(OrderType::Limit));
    assert_eq!(OrderType::from_u8(255), Err(PercolatorError::InvalidOrderType));
    assert_eq!((OrderType::Market.to_u8(), OrderType::Limit.to_u8()), (0, 1));
}
