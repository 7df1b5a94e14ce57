use percolator::position_details::{
    PositionDetails, POSITION_DETAILS_MAGIC, POSITION_DETAILS_SIZE,
};

/// One whole unit of the six-decimal scale.
const SCALE: i128 = 1_000_000;

fn long_two_at_50k() -> PositionDetails {
    PositionDetails::new(
        [0u8; 32],
        0,
        0,
        50_000_000_000, // Entry @ $50,000
        2_000_000,      // 2.0 BTC
        1000,
        255,
        2_000_000_000,
        1,
    )
}

fn flat() -> PositionDetails {
    PositionDetails::new([0u8; 32], 0, 0, 0, 0, 0, 255, 0, 1)
}

#[test]
fn test_position_details_size() {
    let details = long_two_at_50k();
    assert_eq!(details.to_bytes().len(), POSITION_DETAILS_SIZE);
}

#[test]
fn test_position_details_creation() {
    let portfolio = [0u8; 32];
    let details = PositionDetails::new(
        portfolio,
        0,
        0,
        50_000_000_000, // $50,000
        2_000_000,      // 2.0 BTC
        1000,
        255,
        2_000_000_000,
        1,
    );

    assert!(details.validate());
    assert_eq!(details.portfolio, portfolio);
    assert_eq!(details.slab_index, 0);
    assert_eq!(details.instrument_index, 0);
    assert_eq!(details.avg_entry_price, 50_000_000_000);
    assert_eq!(details.total_qty, 2_000_000);
    assert_eq!(details.realized_pnl, 0);
    assert_eq!(details.total_fees, 0);
    assert_eq!(details.trade_count, 1);
}

#[test]
fn test_add_to_position() {
    let mut details = long_two_at_50k();

    // Add 1.0 BTC @ $51,000
    details.add_to_position(
        51_000_000_000,
        1_000_000,
        100_000, // fee
        1001,
        1_000_000_000,
    );

    // Weighted avg: (50k * 2 + 51k * 1) / 3 = 50.333k
    assert_eq!(details.avg_entry_price, 50_333_333_333);
    assert_eq!(details.total_qty, 3_000_000);
    assert_eq!(details.total_fees, 100_000);
    assert_eq!(details.trade_count, 2);
}

#[test]
fn test_reduce_position_profit() {
    let mut details = long_two_at_50k();

    // Close 1.0 BTC @ $52,000
    let (pnl, remaining, _released) = details.reduce_position(
        52_000_000_000,
        1_000_000,
        50_000, // fee
        1001,
    );

    // PnL = 1.0 * (52k - 50k) = 2k, in the six-decimal scale
    assert_eq!(pnl, 2_000 * SCALE);
    assert_eq!(remaining, 1_000_000);
    assert_eq!(details.realized_pnl, 2_000 * SCALE);
    assert_eq!(details.total_fees, 50_000);
    assert_eq!(details.trade_count, 2);
}

#[test]
fn test_reduce_position_loss() {
    let mut details = long_two_at_50k();

    // Close 1.0 BTC @ $48,000 (loss)
    let (pnl, remaining, _released) = details.reduce_position(48_000_000_000, 1_000_000, 50_000, 1001);

    // PnL = 1.0 * (48k - 50k) = -2k, in the six-decimal scale
    assert_eq!(pnl, -2_000 * SCALE);
    assert_eq!(remaining, 1_000_000);
    assert_eq!(details.realized_pnl, -2_000 * SCALE);
}

#[test]
fn test_short_position_profit() {
    let mut details = PositionDetails::new(
        [0u8; 32],
        0,
        0,
        50_000_000_000, // Entry @ $50,000
        -2_000_000,     // -2.0 BTC (short)
        1000,
        255,
        2_000_000_000,
        1,
    );

    // Close 1.0 BTC @ $48,000 (buy back)
    let (pnl, remaining, _released) = details.reduce_position(48_000_000_000, 1_000_000, 50_000, 1001);

    // Short profit when price drops: 1.0 * -(48k - 50k) = 2k, in the six-decimal scale
    assert_eq!(pnl, 2_000 * SCALE);
    assert_eq!(remaining, -1_000_000);
    assert_eq!(details.realized_pnl, 2_000 * SCALE);
}

#[test]
fn magic_is_the_tag_read_little_endian() {
    assert_eq!(POSITION_DETAILS_MAGIC.to_le_bytes(), *b"BARTPOSN");
    assert_eq!(POSITION_DETAILS_SIZE, 144);
}

#[test]
fn validate_refuses_another_tag() {
    let mut details = long_two_at_50k();
    details.magic = 0;
    assert!(!details.validate());
}

#[test]
fn first_fill_on_a_flat_record_sets_the_entry_price() {
    let mut details = flat();
    details.add_to_position(48_000_000_000, -3_000_000, 7, 55, 300_000_000);
    assert_eq!(details.avg_entry_price, 48_000_000_000);
    assert_eq!(details.total_qty, -3_000_000);
    assert_eq!(details.margin_held, 300_000_000);
    assert_eq!(details.total_fees, 7);
    assert_eq!(details.last_update_ts, 55);
    assert_eq!(details.trade_count, 2);
}

#[test]
fn average_is_the_volume_weighted_mean_when_it_divides_evenly() {
    let mut details = flat();
    details.add_to_position(100, 2, 0, 0, 1);
    details.add_to_position(200, 2, 0, 0, 1);
    assert_eq!(details.avg_entry_price, 150);
    details.add_to_position(250, 4, 0, 0, 1);
    // (2 * 100 + 2 * 200 + 4 * 250) / 8
    assert_eq!(details.avg_entry_price, 200);
    assert_eq!(details.total_qty, 8);
}

#[test]
fn average_rounds_toward_zero_at_every_fill() {
    let mut details = flat();
    details.add_to_position(1, 1, 0, 0, 1);
    details.add_to_position(2, 1, 0, 0, 1);
    assert_eq!(details.avg_entry_price, 1);
    details.add_to_position(3, 1, 0, 0, 1);
    // The mean of the three fills is 2; the running average lost a half on the way.
    assert_eq!(details.avg_entry_price, 1);
}

#[test]
fn average_of_negative_prices_rounds_toward_zero() {
    let mut details = flat();
    details.add_to_position(-3, 1, 0, 0, 1);
    details.add_to_position(-2, 1, 0, 0, 1);
    assert_eq!(details.avg_entry_price, -2);
}

#[test]
fn average_stays_between_the_fill_prices_at_the_ends_of_the_range() {
    let mut details = flat();
    details.add_to_position(i64::MAX, i64::MAX / 2, 0, 0, 1);
    details.add_to_position(i64::MAX, i64::MAX / 2, 0, 0, 1);
    assert_eq!(details.avg_entry_price, i64::MAX);
    let mut low = flat();
    low.add_to_position(i64::MIN, -(i64::MAX / 2), 0, 0, 1);
    low.add_to_position(i64::MIN, -(i64::MAX / 2), 0, 0, 1);
    assert_eq!(low.avg_entry_price, i64::MIN);
}

#[test]
fn fees_and_margin_saturate() {
    let mut details = flat();
    details.total_fees = i128::MAX - 1;
    details.margin_held = u128::MAX - 1;
    details.add_to_position(10, 1, 5, 0, 5);
    assert_eq!(details.total_fees, i128::MAX);
    assert_eq!(details.margin_held, u128::MAX);
}

#[test]
fn partial_reduce_releases_the_share_of_the_closed_quantity() {
    let mut details = PositionDetails::new([0u8; 32], 0, 0, 50_000_000_000, 3_000_000, 0, 255, 3_000_000_000, 1);
    let (_pnl, remaining, released) = details.reduce_position(52_000_000_000, -1_000_000, 0, 1);
    assert_eq!(remaining, 2_000_000);
    assert_eq!(released, 1_000_000_000);
    assert_eq!(details.margin_held, 2_000_000_000);
}

#[test]
fn partial_reduce_of_a_short_releases_the_same_share() {
    let mut details = PositionDetails::new([0u8; 32], 0, 0, 50_000_000_000, -3_000_000, 0, 255, 3_000_000_000, 1);
    let (_pnl, remaining, released) = details.reduce_position(52_000_000_000, 1_000_000, 0, 1);
    assert_eq!(remaining, -2_000_000);
    assert_eq!(released, 1_000_000_000);
    assert_eq!(details.margin_held, 2_000_000_000);
}

#[test]
fn released_margin_is_rounded_down() {
    let mut details = PositionDetails::new([0u8; 32], 0, 0, 10, 3, 0, 255, 100, 1);
    let (_pnl, _remaining, released) = details.reduce_position(10, 1, 0, 1);
    assert_eq!(released, 33);
    assert_eq!(details.margin_held, 67);
}

#[test]
fn released_margin_is_exact_for_the_largest_margin() {
    let mut details = PositionDetails::new([0u8; 32], 0, 0, 10, 4, 0, 255, u128::MAX, 1);
    let (_pnl, _remaining, released) = details.reduce_position(10, 1, 0, 1);
    assert_eq!(released, u128::MAX / 4);
    assert_eq!(details.margin_held, u128::MAX - u128::MAX / 4);
}

#[test]
fn full_close_releases_all_margin() {
    let mut details = long_two_at_50k();
    let (pnl, remaining, released) = details.reduce_position(50_000_000_000, -2_000_000, 0, 1);
    assert_eq!(pnl, 0);
    assert_eq!(remaining, 0);
    assert_eq!(released, 2_000_000_000);
    assert_eq!(details.margin_held, 0);
    assert_eq!(details.total_qty, 0);
}

#[test]
fn reduce_never_closes_more_than_is_held() {
    let mut details = long_two_at_50k();
    let (pnl, remaining, released) = details.reduce_position(51_000_000_000, -5_000_000, 0, 1);
    assert_eq!(pnl, 2_000 * SCALE);
    assert_eq!(remaining, 0);
    assert_eq!(released, 2_000_000_000);
}

#[test]
fn reduce_by_nothing_changes_only_the_bookkeeping() {
    let mut details = long_two_at_50k();
    let (pnl, remaining, released) = details.reduce_position(60_000_000_000, 0, 3, 77);
    assert_eq!((pnl, remaining, released), (0, 2_000_000, 0));
    assert_eq!(details.margin_held, 2_000_000_000);
    assert_eq!(details.trade_count, 2);
    assert_eq!(details.total_fees, 3);
    assert_eq!(details.last_update_ts, 77);
}

#[test]
fn realized_profit_rounds_toward_zero() {
    let mut long = PositionDetails::new([0u8; 32], 0, 0, 0, 1, 0, 255, 1, 1);
    let (gain, _, _) = long.reduce_position(1_500_000, 1, 0, 0);
    assert_eq!(gain, 1);
    let mut short = PositionDetails::new([0u8; 32], 0, 0, 0, -1, 0, 255, 1, 1);
    let (loss, _, _) = short.reduce_position(1_500_000, 1, 0, 0);
    assert_eq!(loss, -1);
}

#[test]
fn realized_profit_accumulates_and_saturates() {
    let mut details = long_two_at_50k();
    details.realized_pnl = i128::MAX - 5;
    let (pnl, _, _) = details.reduce_position(52_000_000_000, 1_000_000, 0, 1);
    assert_eq!(pnl, 2_000 * SCALE);
    assert_eq!(details.realized_pnl, i128::MAX);
}

#[test]
fn reduce_at_the_ends_of_the_range() {
    let mut details = PositionDetails::new([0u8; 32], 0, 0, i64::MAX, i64::MIN, 0, 255, 8, 1);
    let (pnl, remaining, released) = details.reduce_position(i64::MIN, i64::MIN, 0, 0);
    // A short of 2^63 bought back 2^64 - 1 below its entry.
    let expected = (1i128 << 63) * ((1i128 << 64) - 1) / SCALE;
    assert_eq!(pnl, expected);
    assert_eq!(remaining, 0);
    assert_eq!(released, 8);
}
