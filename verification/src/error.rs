//! The single failure classification that every operation reports.

use vstd::prelude::*;

verus! {

/// Why an operation was rejected. An operation that returns one of these has
/// changed none of the records it was given.
#[derive(Clone, Copy, Debug, PartialEq, Eq, Structural)]
pub enum PercolatorError {
    /// The request is malformed: wrong shape, size or count.
    InvalidInstruction,
    /// An account is not the one expected, or its contents are corrupt.
    InvalidAccount,
    /// The caller lacks the authority the operation needs.
    Unauthorized,
    /// The portfolio does not belong to the caller.
    InvalidPortfolio,
    /// The side byte is neither buy nor sell.
    InvalidSide,
    /// The order type byte is neither market nor limit.
    InvalidOrderType,
    /// The quantity is not positive.
    InvalidQuantity,
    /// The price is not positive, or a limit price lies outside the sanity band.
    InvalidPrice,
    /// A market price deviates from the oracle by more than the tolerance.
    PriceSlippage,
    /// The oracle has no price to offer.
    InvalidOracle,
    /// The venue did not write the fill receipt.
    InvalidReceipt,
    /// The venue's sequence number differs from the fence of the request.
    SeqnoMismatch,
    /// A collateral transfer exceeds the balance it draws on.
    InsufficientFunds,
    /// Equity would fall below the maintenance margin.
    PortfolioInsufficientMargin,
    /// A structural calculation left the range of its type.
    Overflow,
    /// The record was initialized before.
    AlreadyInitialized,
    /// A bounded table has no free slot left.
    PoolFull,
}

} // verus!
