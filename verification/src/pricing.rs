//! Price checks against the oracle, made before any venue is called.
//!
//! A market order executes at the oracle price. A limit order executes at its
//! own price, which has to lie within a sanity band around the oracle price.

use crate::error::PercolatorError;
use crate::math::{clamp_i64, saturating_add_i64, saturating_sub_i64, trunc_div};
use crate::position_details::lemma_trunc_div_between;
use vstd::prelude::*;

verus! {

/// The most a market price may deviate from the oracle, in basis points.
pub const MAX_SLIPPAGE_BPS: i64 = 50;

/// The most a limit price may deviate from the oracle, in basis points.
pub const MAX_DEVIATION_BPS: i64 = 2_000;

/// Order type byte of a market order.
pub const ORDER_TYPE_MARKET: u8 = 0;

/// Order type byte of a limit order.
pub const ORDER_TYPE_LIMIT: u8 = 1;

/// The share `bps` of the oracle price, rounded toward zero.
pub open spec fn price_deviation(oracle_px: int, bps: int) -> int {
    trunc_div(oracle_px * bps, 10_000)
}

/// The lowest price of the band of `bps` around the oracle price.
pub open spec fn band_low(oracle_px: int, bps: int) -> int {
    clamp_i64(oracle_px - price_deviation(oracle_px, bps))
}

/// The highest price of the band of `bps` around the oracle price.
pub open spec fn band_high(oracle_px: int, bps: int) -> int {
    clamp_i64(oracle_px + price_deviation(oracle_px, bps))
}

/// The verdict on a market order's price: a buy must not bid below the band,
/// a sell must not ask above it.
pub open spec fn market_price_verdict(limit_px: i64, oracle_px: i64, side: u8) -> Result<
    (),
    PercolatorError,
> {
    if side == 0 {
        if limit_px < band_low(oracle_px as int, MAX_SLIPPAGE_BPS as int) {
            Err(PercolatorError::PriceSlippage)
        } else {
            Ok(())
        }
    } else if side == 1 {
        if limit_px > band_high(oracle_px as int, MAX_SLIPPAGE_BPS as int) {
            Err(PercolatorError::PriceSlippage)
        } else {
            Ok(())
        }
    } else {
        Err(PercolatorError::InvalidSide)
    }
}

/// The verdict on a limit order's price: it must lie within the sanity band.
pub open spec fn limit_price_verdict(limit_px: i64, oracle_px: i64) -> Result<(), PercolatorError> {
    if limit_px < band_low(oracle_px as int, MAX_DEVIATION_BPS as int) || limit_px > band_high(
        oracle_px as int,
        MAX_DEVIATION_BPS as int,
    ) {
        Err(PercolatorError::InvalidPrice)
    } else {
        Ok(())
    }
}

/// The price at which an order executes: the oracle price for a market order,
/// the checked limit price for a limit order.
pub open spec fn resolved_price(order_type: u8, limit_px: i64, oracle_px: i64) -> Result<
    i64,
    PercolatorError,
> {
    if order_type == ORDER_TYPE_MARKET {
        Ok(oracle_px)
    } else if order_type == ORDER_TYPE_LIMIT {
        match limit_price_verdict(limit_px, oracle_px) {
            Ok(_) => Ok(limit_px),
            Err(e) => Err(e),
        }
    } else {
        Err(PercolatorError::InvalidOrderType)
    }
}

/// The two ends of the band of `bps` around the oracle price.
fn price_band(oracle_px: i64, bps: i64) -> (band: (i64, i64))
    requires
        0 <= bps <= 10_000,
    ensures
        band.0 == band_low(oracle_px as int, bps as int),
        band.1 == band_high(oracle_px as int, bps as int),
{
    proof {
        let o = oracle_px as int;
        let lo = if o >= 0 {
            -o
        } else {
            o
        };
        assert(10_000 * lo <= o * (bps as int) <= 10_000 * (-lo)) by (nonlinear_arith)
            requires
                0 <= bps <= 10_000,
                lo == if o >= 0 {
                    -o
                } else {
                    o
                },
        ;
        lemma_trunc_div_between(o * (bps as int), 10_000, lo, -lo);
    }
    let scaled: i128 = (oracle_px as i128) * (bps as i128);
    let max_deviation: i64 = (scaled / 10_000) as i64;
    (saturating_sub_i64(oracle_px, max_deviation), saturating_add_i64(oracle_px, max_deviation))
}

/// Checks the price of a market order against the oracle: a buy below the
/// slippage band or a sell above it is refused, and so is an unknown side.
pub fn validate_market_order_price(limit_px: i64, oracle_px: i64, side: u8) -> (result: Result<
    (),
    PercolatorError,
>)
    ensures
        result == market_price_verdict(limit_px, oracle_px, side),
{
    let band = price_band(oracle_px, MAX_SLIPPAGE_BPS);
    if side == 0 {
        if limit_px < band.0 {
            return Err(PercolatorError::PriceSlippage);
        }
    } else if side == 1 {
        if limit_px > band.1 {
            return Err(PercolatorError::PriceSlippage);
        }
    } else {
        return Err(PercolatorError::InvalidSide);
    }
    Ok(())
}

/// Checks that a limit price lies within the sanity band around the oracle
/// price.
pub fn validate_limit_order_price(limit_px: i64, oracle_px: i64) -> (result: Result<
    (),
    PercolatorError,
>)
    ensures
        result == limit_price_verdict(limit_px, oracle_px),
{
    let band = price_band(oracle_px, MAX_DEVIATION_BPS);
    if limit_px < band.0 || limit_px > band.1 {
        return Err(PercolatorError::InvalidPrice);
    }
    Ok(())
}

/// Resolves the price at which an order executes, and refuses a limit price
/// outside the sanity band and an unknown order type.
pub fn resolve_execution_price(order_type: u8, limit_px: i64, oracle_px: i64) -> (result: Result<
    i64,
    PercolatorError,
>)
    ensures
        result == resolved_price(order_type, limit_px, oracle_px),
{
    if order_type == ORDER_TYPE_MARKET {
        Ok(oracle_px)
    } else if order_type == ORDER_TYPE_LIMIT {
        match validate_limit_order_price(limit_px, oracle_px) {
            Ok(_) => Ok(limit_px),
            Err(e) => Err(e),
        }
    } else {
        Err(PercolatorError::InvalidOrderType)
    }
}

} // verus!
