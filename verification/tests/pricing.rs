use percolator::error::PercolatorError;
use percolator::pricing::{
    resolve_execution_price, validate_limit_order_price, validate_market_order_price,
};

const ORACLE: i64 = 50_000_000_000;

#[test]
fn limit_price_within_twenty_percent_is_accepted() {
    assert_eq!(validate_limit_order_price(ORACLE, ORACLE), Ok(()));
    assert_eq!(validate_limit_order_price(40_000_000_000, ORACLE), Ok(()));
    assert_eq!(validate_limit_order_price(60_000_000_000, ORACLE), Ok(()));
}

#[test]
fn limit_price_outside_twenty_percent_is_refused() {
    assert_eq!(validate_limit_order_price(39_999_999_999, ORACLE), Err(PercolatorError::InvalidPrice));
    assert_eq!(validate_limit_order_price(60_000_000_001, ORACLE), Err(PercolatorError::InvalidPrice));
    assert_eq!(validate_limit_order_price(0, ORACLE), Err(PercolatorError::InvalidPrice));
}

#[test]
fn limit_band_saturates_at_the_end_of_the_range() {
    assert_eq!(validate_limit_order_price(i64::MAX, i64::MAX), Ok(()));
    // 20% of the oracle price, rounded toward zero, below it.
    let low = i64::MAX - (i64::MAX as i128 * 2_000 / 10_000) as i64;
    assert_eq!(validate_limit_order_price(low, i64::MAX), Ok(()));
    assert_eq!(validate_limit_order_price(low - 1, i64::MAX), Err(PercolatorError::InvalidPrice));
}

#[test]
fn negative_oracle_price_has_an_empty_band() {
    assert_eq!(validate_limit_order_price(-10, -10), Err(PercolatorError::InvalidPrice));
    assert_eq!(validate_limit_order_price(-9, -10), Err(PercolatorError::InvalidPrice));
    // With an oracle of -4 the deviation rounds to zero and the band is the price itself.
    assert_eq!(validate_limit_order_price(-4, -4), Ok(()));
}

#[test]
fn market_buy_must_not_bid_below_the_slippage_band() {
    // 0.5% of 50,000 is 250.
    assert_eq!(validate_market_order_price(49_750_000_000, ORACLE, 0), Ok(()));
    assert_eq!(
        validate_market_order_price(49_749_999_999, ORACLE, 0),
        Err(PercolatorError::PriceSlippage)
    );
    assert_eq!(validate_market_order_price(i64::MAX, ORACLE, 0), Ok(()));
}

#[test]
fn market_sell_must_not_ask_above_the_slippage_band() {
    assert_eq!(validate_market_order_price(50_250_000_000, ORACLE, 1), Ok(()));
    assert_eq!(
        validate_market_order_price(50_250_000_001, ORACLE, 1),
        Err(PercolatorError::PriceSlippage)
    );
    assert_eq!(validate_market_order_price(i64::MIN, ORACLE, 1), Ok(()));
}

#[test]
fn market_order_with_an_unknown_side_is_refused() {
    assert_eq!(validate_market_order_price(ORACLE, ORACLE, 2), Err(PercolatorError::InvalidSide));
}

#[test]
fn market_order_executes_at_the_oracle_price() {
    assert_eq!(resolve_execution_price(0, 1, ORACLE), Ok(ORACLE));
}

#[test]
fn limit_order_executes_at_its_checked_limit_price() {
    assert_eq!(resolve_execution_price(1, 51_000_000_000, ORACLE), Ok(51_000_000_000));
    assert_eq!(resolve_execution_price(1, 61_000_000_000, ORACLE), Err(PercolatorError::InvalidPrice));
}

#[test]
fn unknown_order_type_is_refused() {
    assert_eq!(resolve_execution_price(2, ORACLE, ORACLE), Err(PercolatorError::InvalidOrderType));
}
