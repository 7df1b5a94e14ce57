//! The settlement of fills: how one fill changes a position record, the two
//! portfolios and the collateral between them, and how a whole trade of
//! several fills is accepted or refused.
//!
//! A fill opens or adds to a position, reduces it, or reverses it. After the
//! last fill the realized profit is settled in one movement, the insurance
//! fund takes its share, the margin requirement is recomputed, and the trade
//! stands only if equity still covers the maintenance margin. A refused trade
//! leaves every record as it was.

use crate::book::{find_position, has_position, position_index};
use crate::collateral::{
    margin_moved, pnl_settled, return_margin_to_user, settle_pnl, transfer_collateral_margin,
};
use crate::error::PercolatorError;
use crate::insurance::capped_sum;
use crate::math::{abs_i64, clamp_i128, min_u64, saturating_add_i128, spec_abs, SCALE};
use crate::portfolio::{has_entry, Portfolio, PortfolioView, MAX_EXPOSURES};
use crate::position_details::{
    closed_qty, closing_pnl, realized_on_close, same_direction, PositionDetails,
    POSITION_DETAILS_MAGIC,
};
use crate::settlement_laws::{
    ledger_wf, lemma_settled_trade_covers_margin, lemma_settlement_keeps_ledger_wf,
};
use crate::registry::{SlabRegistry, SlabRegistryView, MAX_SLABS};
use crate::slab::FillReceipt;
use pinocchio::pubkey::Pubkey;
use vstd::prelude::*;

verus! {
/// Collateral committed per unit of quantity at leverage one.
pub const MARGIN_PER_UNIT: u128 = 1_000;

/// The lowest leverage a trade may ask for.
pub const MIN_LEVERAGE: u8 = 1;

/// The highest leverage a trade may ask for.
pub const MAX_LEVERAGE: u8 = 10;

/// The most venues one trade may be split over.
pub const MAX_SPLITS: usize = 8;

/// Index of the one instrument that a venue trades.
pub const INSTRUMENT_INDEX: u16 = 0;

/// The part of an order that goes to one venue.
#[derive(Clone, Copy, Debug, PartialEq, Eq)]
pub struct SlabSplit {
    /// Address of the venue.
    pub slab_id: Pubkey,
    /// Quantity to execute on the venue, six decimals.
    pub qty: i64,
    /// Side: 0 buys, 1 sells.
    pub side: u8,
    /// Limit price, six decimals.
    pub limit_px: i64,
}

/// One split together with what came back for it.
#[derive(Clone, Copy, Debug, PartialEq, Eq)]
pub struct SettledSplit {
    /// The split as it was requested.
    pub split: SlabSplit,
    /// Price feed of the venue, recorded when the venue registers itself.
    pub oracle_id: Pubkey,
    /// Bump seed for a position record that the fill creates.
    pub position_bump: u8,
    /// The venue's receipt.
    pub receipt: FillReceipt,
}

/// The records that a trade reads and writes.
#[derive(Clone, Debug, PartialEq, Eq)]
pub struct Ledger {
    /// The trader's portfolio.
    pub user: Portfolio,
    /// The counterparty pool.
    pub dlp: Portfolio,
    /// The registry with the insurance fund.
    pub registry: SlabRegistry,
    /// The trader's position records.
    pub positions: Vec<PositionDetails>,
}

/// What a ledger holds.
pub struct LedgerView {
    pub user: PortfolioView,
    pub dlp: PortfolioView,
    pub registry: SlabRegistryView,
    pub positions: Seq<PositionDetails>,
}

impl View for Ledger {
    type V = LedgerView;

    open spec fn view(&self) -> LedgerView {
        LedgerView {
            user: self.user@,
            dlp: self.dlp@,
            registry: self.registry@,
            positions: self.positions@,
        }
    }
}

/// How a fill relates to the position it meets.
#[derive(Clone, Copy, Debug, PartialEq, Eq, Structural)]
pub enum FillKind {
    /// The position is flat or points the way of the fill.
    OpenOrAdd,
    /// The fill opposes the position and is no larger than it.
    Reduce,
    /// The fill opposes the position and is larger than it.
    Reverse,
}

/// The signed quantity of a fill: positive for a buy, negative for a sell.
pub open spec fn signed_fill(side: u8, filled_qty: i64) -> int {
    if side == 0 {
        filled_qty as int
    } else {
        -filled_qty
    }
}

/// How a fill of signed quantity `fill` relates to a held quantity of `held`.
pub open spec fn fill_kind(held: int, fill: int) -> FillKind {
    if same_direction(held, fill) {
        FillKind::OpenOrAdd
    } else if spec_abs(fill) <= spec_abs(held) {
        FillKind::Reduce
    } else {
        FillKind::Reverse
    }
}

/// Margin committed for a quantity at a leverage.
pub open spec fn open_margin(qty_abs: int, leverage: int) -> int {
    (qty_abs * MARGIN_PER_UNIT) / leverage
}

/// The record of a position before its first fill: flat, without margin.
pub open spec fn blank_position(
    portfolio: Pubkey,
    slab_idx: u16,
    entry_price: i64,
    timestamp: i64,
    bump: u8,
    leverage: u8,
) -> PositionDetails {
    PositionDetails {
        magic: POSITION_DETAILS_MAGIC,
        portfolio,
        slab_index: slab_idx,
        instrument_index: INSTRUMENT_INDEX,
        bump,
        avg_entry_price: entry_price,
        total_qty: 0,
        realized_pnl: 0,
        total_fees: 0,
        trade_count: 1,
        last_update_ts: timestamp,
        margin_held: 0,
        leverage,
    }
}

/// The record that a fill on the venue meets: the one on the book, or a blank
/// one where the book has none.
pub open spec fn position_met(
    ledger: LedgerView,
    portfolio: Pubkey,
    slab_idx: u16,
    bump: u8,
    vwap_px: i64,
    leverage: u8,
    timestamp: i64,
) -> PositionDetails {
    if has_position(ledger.positions, portfolio, slab_idx, INSTRUMENT_INDEX) {
        ledger.positions[position_index(ledger.positions, portfolio, slab_idx, INSTRUMENT_INDEX)]
    } else {
        blank_position(portfolio, slab_idx, vwap_px, timestamp, bump, leverage)
    }
}

/// The portfolio with the quantity of one venue set, or nothing where a new
/// entry finds no free slot.
pub open spec fn exposure_set(portfolio: PortfolioView, slab_idx: u16, qty: i64) -> Option<
    PortfolioView,
> {
    if !has_entry(portfolio.exposures, slab_idx, INSTRUMENT_INDEX) && qty != 0
        && portfolio.exposures.len() >= MAX_EXPOSURES {
        None
    } else {
        Some(portfolio.with_exposure(slab_idx, INSTRUMENT_INDEX, qty))
    }
}

/// The ledger after a fill of signed quantity `fill` has opened a position on
/// the venue or added to it: the margin for the fill moves from the trader to
/// the pool, the record takes the fill at the weighted average price, and the
/// exposure follows the record. No profit is realized. A record that points
/// against the fill cannot be added to.
pub open spec fn open_applied(
    ledger: LedgerView,
    portfolio: Pubkey,
    slab_idx: u16,
    bump: u8,
    fill: i64,
    vwap_px: i64,
    leverage: u8,
    timestamp: i64,
) -> Result<(LedgerView, i128), PercolatorError> {
    let existing = has_position(ledger.positions, portfolio, slab_idx, INSTRUMENT_INDEX);
    let at = position_index(ledger.positions, portfolio, slab_idx, INSTRUMENT_INDEX);
    let record = position_met(ledger, portfolio, slab_idx, bump, vwap_px, leverage, timestamp);
    let margin = open_margin(spec_abs(fill as int), leverage as int) as u128;
    if !same_direction(record.total_qty as int, fill as int) {
        Err(PercolatorError::InvalidAccount)
    } else if record.trade_count == u32::MAX || record.total_qty + fill > i64::MAX
        || record.total_qty + fill < i64::MIN {
        Err(PercolatorError::Overflow)
    } else {
        match margin_moved(ledger.user, ledger.dlp, margin) {
            Err(e) => Err(e),
            Ok(moved) => {
                let updated = record.added(vwap_px, fill, 0, timestamp, margin);
                match exposure_set(moved.0, slab_idx, updated.total_qty) {
                    None => Err(PercolatorError::PoolFull),
                    Some(user) => Ok(
                        (
                            LedgerView {
                                user,
                                dlp: moved.1,
                                positions: if existing {
                                    ledger.positions.update(at, updated)
                                } else {
                                    ledger.positions.push(updated)
                                },
                                ..ledger
                            },
                            0i128,
                        ),
                    ),
                }
            },
        }
    }
}

/// The ledger after a fill of signed quantity `fill` has reduced the position
/// on the venue: the profit of the closed part is realized, its share of the
/// margin returns from the pool to the trader, and a record that reaches zero
/// leaves the book.
pub open spec fn reduce_applied(
    ledger: LedgerView,
    portfolio: Pubkey,
    slab_idx: u16,
    fill: i64,
    vwap_px: i64,
    timestamp: i64,
) -> Result<(LedgerView, i128), PercolatorError> {
    let at = position_index(ledger.positions, portfolio, slab_idx, INSTRUMENT_INDEX);
    if !has_position(ledger.positions, portfolio, slab_idx, INSTRUMENT_INDEX) {
        Err(PercolatorError::InvalidAccount)
    } else if ledger.positions[at].trade_count == u32::MAX {
        Err(PercolatorError::Overflow)
    } else {
        let record = ledger.positions[at];
        let reduced = record.reduced(vwap_px, fill, 0, timestamp);
        match margin_moved(ledger.dlp, ledger.user, record.reduce_release(fill) as u128) {
            Err(e) => Err(e),
            Ok(moved) => match exposure_set(moved.1, slab_idx, reduced.total_qty) {
                None => Err(PercolatorError::PoolFull),
                Some(user) => Ok(
                    (
                        LedgerView {
                            user,
                            dlp: moved.0,
                            positions: if reduced.total_qty == 0 {
                                ledger.positions.remove(at)
                            } else {
                                ledger.positions.update(at, reduced)
                            },
                            ..ledger
                        },
                        record.reduce_pnl(vwap_px, fill) as i128,
                    ),
                ),
            },
        }
    }
}

/// The ledger and the realized profit after one fill on the venue with index
/// `slab_idx`. A fill that meets a flat position or one of its own direction
/// opens or adds; an opposing fill no larger than the position reduces it; a
/// larger one closes the position in full and opens the rest the other way.
pub open spec fn fill_applied(
    ledger: LedgerView,
    portfolio: Pubkey,
    slab_idx: u16,
    bump: u8,
    side: u8,
    filled_qty: i64,
    vwap_px: i64,
    leverage: u8,
    timestamp: i64,
) -> Result<(LedgerView, i128), PercolatorError> {
    let fill = signed_fill(side, filled_qty);
    let held = position_met(
        ledger,
        portfolio,
        slab_idx,
        bump,
        vwap_px,
        leverage,
        timestamp,
    ).total_qty;
    match fill_kind(held as int, fill) {
        FillKind::OpenOrAdd => open_applied(
            ledger,
            portfolio,
            slab_idx,
            bump,
            fill as i64,
            vwap_px,
            leverage,
            timestamp,
        ),
        FillKind::Reduce => reduce_applied(
            ledger,
            portfolio,
            slab_idx,
            fill as i64,
            vwap_px,
            timestamp,
        ),
        FillKind::Reverse => match reduce_applied(
            ledger,
            portfolio,
            slab_idx,
            (-held) as i64,
            vwap_px,
            timestamp,
        ) {
            Err(e) => Err(e),
            Ok(closed) => match open_applied(
                closed.0,
                portfolio,
                slab_idx,
                bump,
                (fill + held) as i64,
                vwap_px,
                leverage,
                timestamp,
            ) {
                Err(e) => Err(e),
                Ok(opened) => Ok((opened.0, closed.1)),
            },
        },
    }
}

/// Tells how a fill of signed quantity `fill_qty` relates to a position of
/// `current_exposure`. A flat position is always opened; a fill that exactly
/// offsets the position reduces it and does not reverse it.
pub fn classify_fill(current_exposure: i64, fill_qty: i64) -> (kind: FillKind)
    ensures
        kind == fill_kind(current_exposure as int, fill_qty as int),
{
    if (current_exposure >= 0 && fill_qty >= 0) || (current_exposure <= 0 && fill_qty <= 0) {
        FillKind::OpenOrAdd
    } else if abs_i64(fill_qty) <= abs_i64(current_exposure) {
        FillKind::Reduce
    } else {
        FillKind::Reverse
    }
}

/// The margin committed for a quantity at a leverage.
pub fn margin_for(qty_abs: u64, leverage: u8) -> (margin: u128)
    requires
        leverage >= 1,
    ensures
        margin == open_margin(qty_abs as int, leverage as int),
{
    ((qty_abs as u128) * MARGIN_PER_UNIT) / (leverage as u128)
}

/// Sets the exposure of the venue to the quantity of its record.
fn set_exposure(user: &mut Portfolio, slab_idx: u16, qty: i64) -> (result: Result<
    (),
    PercolatorError,
>)
    ensures
        match exposure_set(old(user)@, slab_idx, qty) {
            Some(after) => result == Ok::<(), PercolatorError>(()) && final(user)@ == after,
            None => result == Err::<(), PercolatorError>(PercolatorError::PoolFull),
        },
{
    match user.update_exposure(slab_idx, INSTRUMENT_INDEX, qty) {
        Ok(_) => Ok(()),
        Err(e) => Err(e),
    }
}

/// Opens a position on the venue or adds to it.
fn apply_open(
    ledger: &mut Ledger,
    portfolio: &Pubkey,
    slab_idx: u16,
    bump: u8,
    fill: i64,
    vwap_px: i64,
    leverage: u8,
    timestamp: i64,
) -> (result: Result<i128, PercolatorError>)
    requires
        fill != 0,
        1 <= leverage,
    ensures
        match open_applied(
            old(ledger)@,
            *portfolio,
            slab_idx,
            bump,
            fill,
            vwap_px,
            leverage,
            timestamp,
        ) {
            Ok(applied) => result == Ok::<i128, PercolatorError>(applied.1) && final(ledger)@
                == applied.0,
            Err(e) => result == Err::<i128, PercolatorError>(e),
        },
        final(ledger)@.registry == old(ledger)@.registry,
{
    let found = find_position(&ledger.positions, portfolio, slab_idx, INSTRUMENT_INDEX);
    let mut record: PositionDetails = match found {
        Some(at) => ledger.positions[at],
        None => PositionDetails::new(
            *portfolio,
            slab_idx,
            INSTRUMENT_INDEX,
            vwap_px,
            0,
            timestamp,
            bump,
            0,
            leverage,
        ),
    };
    if !((record.total_qty >= 0 && fill >= 0) || (record.total_qty <= 0 && fill <= 0)) {
        return Err(PercolatorError::InvalidAccount);
    }
    if record.trade_count == u32::MAX {
        return Err(PercolatorError::Overflow);
    }
    if record.total_qty.checked_add(fill).is_none() {
        return Err(PercolatorError::Overflow);
    }
    let margin: u128 = margin_for(abs_i64(fill), leverage);
    match transfer_collateral_margin(&mut ledger.user, &mut ledger.dlp, margin) {
        Err(e) => {
            return Err(e);
        },
        Ok(_) => {},
    }
    record.add_to_position(vwap_px, fill, 0, timestamp, margin);
    match set_exposure(&mut ledger.user, slab_idx, record.total_qty) {
        Err(e) => {
            return Err(e);
        },
        Ok(_) => {},
    }
    match found {
        Some(at) => {
            ledger.positions[at] = record;
        },
        None => {
            ledger.positions.push(record);
        },
    }
    Ok(0)
}

/// Reduces the position on the venue.
fn apply_reduce(
    ledger: &mut Ledger,
    portfolio: &Pubkey,
    slab_idx: u16,
    fill: i64,
    vwap_px: i64,
    timestamp: i64,
) -> (result: Result<i128, PercolatorError>)
    ensures
        match reduce_applied(old(ledger)@, *portfolio, slab_idx, fill, vwap_px, timestamp) {
            Ok(applied) => result == Ok::<i128, PercolatorError>(applied.1) && final(ledger)@
                == applied.0,
            Err(e) => result == Err::<i128, PercolatorError>(e),
        },
        final(ledger)@.registry == old(ledger)@.registry,
{
    let found = find_position(&ledger.positions, portfolio, slab_idx, INSTRUMENT_INDEX);
    let at: usize = match found {
        Some(at) => at,
        None => {
            return Err(PercolatorError::InvalidAccount);
        },
    };
    let mut record: PositionDetails = ledger.positions[at];
    if record.trade_count == u32::MAX {
        return Err(PercolatorError::Overflow);
    }
    let out = record.reduce_position(vwap_px, fill, 0, timestamp);
    match return_margin_to_user(&mut ledger.user, &mut ledger.dlp, out.2) {
        Err(e) => {
            return Err(e);
        },
        Ok(_) => {},
    }
    match set_exposure(&mut ledger.user, slab_idx, out.1) {
        Err(e) => {
            return Err(e);
        },
        Ok(_) => {},
    }
    if out.1 == 0 {
        ledger.positions.remove(at);
    } else {
        ledger.positions[at] = record;
    }
    Ok(out.0)
}

/// Applies one fill on the venue with index `slab_idx` and returns the profit
/// it realizes.
fn apply_fill(
    ledger: &mut Ledger,
    portfolio: &Pubkey,
    slab_idx: u16,
    bump: u8,
    side: u8,
    filled_qty: i64,
    vwap_px: i64,
    leverage: u8,
    timestamp: i64,
) -> (result: Result<i128, PercolatorError>)
    requires
        filled_qty > 0,
        1 <= leverage,
    ensures
        match fill_applied(
            old(ledger)@,
            *portfolio,
            slab_idx,
            bump,
            side,
            filled_qty,
            vwap_px,
            leverage,
            timestamp,
        ) {
            Ok(applied) => result == Ok::<i128, PercolatorError>(applied.1) && final(ledger)@
                == applied.0,
            Err(e) => result == Err::<i128, PercolatorError>(e),
        },
        final(ledger)@.registry == old(ledger)@.registry,
{
    let fill: i64 = if side == 0 {
        filled_qty
    } else {
        -filled_qty
    };
    let held: i64 = match find_position(&ledger.positions, portfolio, slab_idx, INSTRUMENT_INDEX) {
        Some(at) => ledger.positions[at].total_qty,
        None => 0,
    };
    match classify_fill(held, fill) {
        FillKind::OpenOrAdd => apply_open(
            ledger,
            portfolio,
            slab_idx,
            bump,
            fill,
            vwap_px,
            leverage,
            timestamp,
        ),
        FillKind::Reduce => apply_reduce(ledger, portfolio, slab_idx, fill, vwap_px, timestamp),
        FillKind::Reverse => {
            let pnl: i128 = match apply_reduce(
                ledger,
                portfolio,
                slab_idx,
                -held,
                vwap_px,
                timestamp,
            ) {
                Err(e) => {
                    return Err(e);
                },
                Ok(pnl) => pnl,
            };
            match apply_open(
                ledger,
                portfolio,
                slab_idx,
                bump,
                fill + held,
                vwap_px,
                leverage,
                timestamp,
            ) {
                Err(e) => Err(e),
                Ok(_) => Ok(pnl),
            }
        },
    }
}

/// Tells whether an exposure is open while the book holds no record of its
/// venue and instrument.
pub open spec fn exposure_unbacked(
    entry: (u16, u16, i64),
    positions: Seq<PositionDetails>,
    portfolio: Pubkey,
) -> bool {
    entry.2 != 0 && !has_position(positions, portfolio, entry.0, entry.1)
}

/// Tells whether some exposure is open without a record.
pub open spec fn some_exposure_unbacked(
    exposures: Seq<(u16, u16, i64)>,
    positions: Seq<PositionDetails>,
    portfolio: Pubkey,
) -> bool {
    exists|i: int|
        0 <= i < exposures.len() && exposure_unbacked(#[trigger] exposures[i], positions, portfolio)
}

/// Margin that one exposure asks for: the margin held by the record of its
/// venue and instrument. A flat exposure asks for none.
pub open spec fn margin_of_exposure(
    entry: (u16, u16, i64),
    positions: Seq<PositionDetails>,
    portfolio: Pubkey,
) -> int {
    if entry.2 != 0 && has_position(positions, portfolio, entry.0, entry.1) {
        positions[position_index(positions, portfolio, entry.0, entry.1)].margin_held as int
    } else {
        0
    }
}

/// Margin that the first `n` exposures ask for together, at most the end of
/// `u128`.
pub open spec fn margin_required(
    exposures: Seq<(u16, u16, i64)>,
    positions: Seq<PositionDetails>,
    portfolio: Pubkey,
    n: int,
) -> int
    decreases n,
{
    if n <= 0 {
        0
    } else {
        capped_sum(
            margin_required(exposures, positions, portfolio, n - 1),
            margin_of_exposure(exposures[n - 1], positions, portfolio),
        )
    }
}

/// The initial margin of a portfolio: the margin held by the records of all
/// its open exposures, at most the end of `u128`. An open exposure without a
/// record makes the margin unknowable, which is an error.
pub open spec fn portfolio_margin(
    exposures: Seq<(u16, u16, i64)>,
    positions: Seq<PositionDetails>,
    portfolio: Pubkey,
) -> Result<u128, PercolatorError> {
    if some_exposure_unbacked(exposures, positions, portfolio) {
        Err(PercolatorError::InvalidAccount)
    } else {
        Ok(margin_required(exposures, positions, portfolio, exposures.len() as int) as u128)
    }
}

/// The sum of the first `n` exposures.
pub open spec fn net_exposure(exposures: Seq<(u16, u16, i64)>, n: int) -> int
    decreases n,
{
    if n <= 0 {
        0
    } else {
        net_exposure(exposures, n - 1) + exposures[n - 1].2
    }
}

/// Taker notional of one split: quantity times limit price, both taken by
/// magnitude, scaled back to six decimals.
pub open spec fn split_notional(split: SlabSplit) -> int {
    (spec_abs(split.qty as int) * spec_abs(split.limit_px as int)) / (SCALE as int)
}

/// Taker notional of the first `n` splits together, at most the end of `u128`.
pub open spec fn taker_notional(fills: Seq<SettledSplit>, n: int) -> int
    decreases n,
{
    if n <= 0 {
        0
    } else {
        capped_sum(taker_notional(fills, n - 1), split_notional(fills[n - 1].split))
    }
}

/// The ledger and the realized profit after the fill of one split: the side
/// and the receipt are checked, the venue is found in the registry or
/// registers itself, and the fill is applied to the position on that venue.
#[verifier::opaque]
pub open spec fn fill_settled(
    ledger: LedgerView,
    portfolio: Pubkey,
    fill: SettledSplit,
    leverage: u8,
    timestamp: i64,
) -> Result<(LedgerView, i128), PercolatorError> {
    if fill.split.side > 1 {
        Err(PercolatorError::InvalidSide)
    } else if !fill.receipt.used || fill.receipt.filled_qty <= 0 {
        Err(PercolatorError::InvalidReceipt)
    } else {
        match ledger.registry.resolve(fill.split.slab_id) {
            None => Err(PercolatorError::InvalidAccount),
            Some(slab_idx) => fill_applied(
                LedgerView {
                    registry: ledger.registry.resolved(fill.split.slab_id, fill.oracle_id),
                    ..ledger
                },
                portfolio,
                slab_idx,
                fill.position_bump,
                fill.split.side,
                fill.receipt.filled_qty,
                fill.receipt.vwap_px,
                leverage,
                timestamp,
            ),
        }
    }
}

/// The ledger and the realized profit, summed without leaving `i128`, after
/// the fills of the first `n` splits, applied in order. The first fill that is
/// refused refuses them all.
pub open spec fn fills_applied(
    ledger: LedgerView,
    portfolio: Pubkey,
    fills: Seq<SettledSplit>,
    leverage: u8,
    timestamp: i64,
    n: int,
) -> Result<(LedgerView, i128), PercolatorError>
    decreases n,
{
    if n <= 0 {
        Ok((ledger, 0i128))
    } else {
        match fills_applied(ledger, portfolio, fills, leverage, timestamp, n - 1) {
            Err(e) => Err(e),
            Ok(before) => match fill_settled(before.0, portfolio, fills[n - 1], leverage, timestamp) {
                Err(e) => Err(e),
                Ok(after) => Ok((after.0, clamp_i128(before.1 + after.1) as i128)),
            },
        }
    }
}

/// The ledger after the closing steps of a trade whose fills realized
/// `realized_pnl`: the profit is settled between trader and pool, the
/// insurance fund takes its share of the taker notional, the initial margin
/// becomes the margin held by the open positions and the maintenance margin
/// half of it. A trade that leaves an exposure open without a record, or
/// equity below the maintenance margin, is refused.
#[verifier::opaque]
pub open spec fn trade_closed(
    ledger: LedgerView,
    portfolio: Pubkey,
    fills: Seq<SettledSplit>,
    realized_pnl: i128,
) -> Result<LedgerView, PercolatorError> {
    match pnl_settled(ledger.user, ledger.dlp, realized_pnl) {
        Err(e) => Err(e),
        Ok(settled) => match portfolio_margin(settled.0.exposures, ledger.positions, portfolio) {
            Err(e) => Err(e),
            Ok(im) => {
                let notional = taker_notional(fills, fills.len() as int) as u128;
                let user = settled.0.with_margin(im, im / 2);
                if !user.has_sufficient_margin() {
                    Err(PercolatorError::PortfolioInsufficientMargin)
                } else {
                    Ok(
                        LedgerView {
                            user,
                            dlp: settled.1,
                            registry: SlabRegistryView {
                                insurance_state: if notional > 0 {
                                    ledger.registry.insurance_state.accrued(
                                        notional,
                                        ledger.registry.insurance_params,
                                    )
                                } else {
                                    ledger.registry.insurance_state
                                },
                                ..ledger.registry
                            },
                            positions: ledger.positions,
                        },
                    )
                }
            },
        },
    }
}

/// The ledger after a trade whose venues have answered: every fill applied in
/// order, then the closing steps. The leverage has to lie in the supported
/// range and the registry within its bound.
pub open spec fn fills_settled(
    ledger: LedgerView,
    portfolio: Pubkey,
    fills: Seq<SettledSplit>,
    leverage: u8,
    timestamp: i64,
) -> Result<LedgerView, PercolatorError> {
    if leverage < MIN_LEVERAGE || leverage > MAX_LEVERAGE {
        Err(PercolatorError::InvalidInstruction)
    } else if ledger.registry.slabs.len() > MAX_SLABS {
        Err(PercolatorError::InvalidAccount)
    } else {
        match fills_applied(ledger, portfolio, fills, leverage, timestamp, fills.len() as int) {
            Err(e) => Err(e),
            Ok(applied) => trade_closed(applied.0, portfolio, fills, applied.1),
        }
    }
}

/// Sums the exposures of a portfolio over all venues. Fails when the sum
/// leaves the range of a quantity.
pub fn calculate_net_exposure(portfolio: &Portfolio) -> (result: Result<i64, PercolatorError>)
    ensures
        match result {
            Ok(net) => net == net_exposure(portfolio@.exposures, portfolio@.exposures.len() as int),
            Err(e) => e == PercolatorError::Overflow && !(i64::MIN <= net_exposure(
                portfolio@.exposures,
                portfolio@.exposures.len() as int,
            ) <= i64::MAX),
        },
{
    let mut net: i128 = 0;
    let mut i: usize = 0;
    while i < portfolio.exposures.len()
        invariant
            i <= portfolio.exposures.len(),
            net == net_exposure(portfolio.exposures@, i as int),
            -(i as int) * 0x8000_0000_0000_0000 <= net <= (i as int) * 0x8000_0000_0000_0000,
        decreases portfolio.exposures.len() - i,
    {
        assert((i as int) * 0x8000_0000_0000_0000 + 0x8000_0000_0000_0000
            <= 0x7fff_ffff_ffff_ffff_ffff_ffff_ffff_ffff) by (nonlinear_arith)
            requires
                0 <= i < 0xffff_ffff_ffff_ffff,
        ;
        net = net + (portfolio.exposures[i].2 as i128);
        i += 1;
    }
    if net > i64::MAX as i128 || net < i64::MIN as i128 {
        Err(PercolatorError::Overflow)
    } else {
        Ok(net as i64)
    }
}

/// Initial margin of a net exposure at the price of the first split:
/// exposure times price over leverage, in whole collateral units. Without a
/// split there is nothing to margin.
pub fn calculate_initial_margin(net_exposure: i64, splits: &Vec<SlabSplit>, leverage: u8) -> (margin:
    u128)
    requires
        leverage >= 1,
        splits@.len() > 0 ==> splits@[0].limit_px >= 0,
    ensures
        margin == if splits@.len() == 0 {
            0
        } else {
            (spec_abs(net_exposure as int) * splits@[0].limit_px) / (leverage
                * 1_000_000_000_000)
        },
{
    if splits.len() == 0 {
        return 0;
    }
    let abs_exposure: u128 = abs_i64(net_exposure) as u128;
    let avg_price: u128 = splits[0].limit_px as u128;
    let leverage_u128: u128 = leverage as u128;
    assert(abs_exposure * avg_price <= 0x4000_0000_0000_0000_0000_0000_0000_0000)
        by (nonlinear_arith)
        requires
            0 <= abs_exposure <= 0x8000_0000_0000_0000,
            0 <= avg_price < 0x8000_0000_0000_0000,
    ;
    (abs_exposure * avg_price) / (leverage_u128 * 1_000_000_000_000)
}

/// Profit that a fill realizes against a position of `current_exposure`
/// entered at `entry_price`: nothing when the fill opens or adds, else the
/// closed quantity times the price move, with the sign flipped for a short.
pub fn calculate_realized_pnl(
    current_exposure: i64,
    filled_qty: i64,
    side: u8,
    exit_price: i64,
    entry_price: i64,
) -> (pnl: i128)
    ensures
        pnl == if (current_exposure > 0 && signed_fill(side, filled_qty) < 0) || (current_exposure
            < 0 && signed_fill(side, filled_qty) > 0) {
            closing_pnl(
                current_exposure as int,
                closed_qty(current_exposure as int, filled_qty as int),
                exit_price as int,
                entry_price as int,
            )
        } else {
            0
        },
{
    let fill_direction: i128 = if side == 0 {
        filled_qty as i128
    } else {
        -(filled_qty as i128)
    };
    let is_reducing: bool = (current_exposure > 0 && fill_direction < 0) || (current_exposure < 0
        && fill_direction > 0);
    if !is_reducing {
        return 0;
    }
    let qty_closed: u64 = min_u64(abs_i64(filled_qty), abs_i64(current_exposure));
    realized_on_close(current_exposure, qty_closed, exit_price, entry_price)
}

/// Profit that closing the whole of a position at `exit_price` realizes.
pub fn calculate_closing_pnl(record: &PositionDetails, exit_price: i64) -> (pnl: i128)
    ensures
        pnl == record.reduce_pnl(exit_price, record.total_qty),
{
    realized_on_close(
        record.total_qty,
        abs_i64(record.total_qty),
        exit_price,
        record.avg_entry_price,
    )
}

/// Initial margin of a portfolio: the margin held by the position records of
/// its open exposures, summed without leaving `u128`. Every open exposure has
/// to have its record among `positions`: where one is missing, the margin
/// cannot be known and the call fails.
pub fn calculate_portfolio_margin_from_exposures(
    portfolio: &Portfolio,
    portfolio_key: &Pubkey,
    positions: &Vec<PositionDetails>,
) -> (result: Result<u128, PercolatorError>)
    ensures
        result == portfolio_margin(portfolio@.exposures, positions@, *portfolio_key),
        result is Err <==> some_exposure_unbacked(portfolio@.exposures, positions@, *portfolio_key),
{
    let mut total_margin: u128 = 0;
    let mut i: usize = 0;
    while i < portfolio.exposures.len()
        invariant
            i <= portfolio.exposures.len(),
            total_margin == margin_required(
                portfolio.exposures@,
                positions@,
                *portfolio_key,
                i as int,
            ),
            forall|j: int|
                0 <= j < i ==> !exposure_unbacked(
                    #[trigger] portfolio.exposures@[j],
                    positions@,
                    *portfolio_key,
                ),
        decreases portfolio.exposures.len() - i,
    {
        let exposure: (u16, u16, i64) = portfolio.exposures[i];
        if exposure.2 != 0 {
            match find_position(positions, portfolio_key, exposure.0, exposure.1) {
                Some(at) => {
                    total_margin = total_margin.saturating_add(positions[at].margin_held);
                },
                None => {
                    assert(exposure_unbacked(
                        portfolio.exposures@[i as int],
                        positions@,
                        *portfolio_key,
                    ));
                    return Err(PercolatorError::InvalidAccount);
                },
            }
        }
        i += 1;
    }
    Ok(total_margin)
}

impl Ledger {
    /// Copies the ledger, so that a trade can work on the copy and commit it
    /// only when it is accepted.
    pub fn snapshot(&self) -> (copy: Ledger)
        ensures
            copy@ == self@,
    {
        let mut positions: Vec<PositionDetails> = Vec::new();
        let mut i: usize = 0;
        while i < self.positions.len()
            invariant
                i <= self.positions.len(),
                positions@ == self.positions@.take(i as int),
            decreases self.positions.len() - i,
        {
            positions.push(self.positions[i]);
            assert(self.positions@.take(i as int).push(self.positions@[i as int])
                =~= self.positions@.take(i + 1));
            i += 1;
        }
        assert(self.positions@.take(i as int) =~= self.positions@);
        Ledger {
            user: self.user.snapshot(),
            dlp: self.dlp.snapshot(),
            registry: self.registry.snapshot(),
            positions,
        }
    }
}

/// Sums the taker notional of the splits.
fn total_taker_notional(fills: &Vec<SettledSplit>) -> (total: u128)
    ensures
        total == taker_notional(fills@, fills@.len() as int),
{
    let mut total: u128 = 0;
    let mut i: usize = 0;
    while i < fills.len()
        invariant
            i <= fills.len(),
            total == taker_notional(fills@, i as int),
        decreases fills.len() - i,
    {
        let qty_abs: u128 = abs_i64(fills[i].split.qty) as u128;
        let px_abs: u128 = abs_i64(fills[i].split.limit_px) as u128;
        assert(qty_abs * px_abs <= 0x4000_0000_0000_0000_0000_0000_0000_0000) by (nonlinear_arith)
            requires
                0 <= qty_abs <= 0x8000_0000_0000_0000,
                0 <= px_abs <= 0x8000_0000_0000_0000,
        ;
        let notional: u128 = (qty_abs * px_abs) / 1_000_000;
        total = total.saturating_add(notional);
        i += 1;
    }
    total
}

/// Applies the fill of one split to the working ledger.
fn settle_fill(
    ledger: &mut Ledger,
    portfolio_key: &Pubkey,
    fill: &SettledSplit,
    leverage: u8,
    timestamp: i64,
) -> (result: Result<i128, PercolatorError>)
    requires
        1 <= leverage,
        old(ledger)@.registry.slabs.len() <= MAX_SLABS,
    ensures
        match fill_settled(old(ledger)@, *portfolio_key, *fill, leverage, timestamp) {
            Ok(after) => result == Ok::<i128, PercolatorError>(after.1) && final(ledger)@
                == after.0,
            Err(e) => result == Err::<i128, PercolatorError>(e),
        },
        final(ledger)@.registry.slabs.len() <= MAX_SLABS,
{
    reveal(fill_settled);
    if fill.split.side > 1 {
        return Err(PercolatorError::InvalidSide);
    }
    if !fill.receipt.is_used() || fill.receipt.filled_qty <= 0 {
        return Err(PercolatorError::InvalidReceipt);
    }
    let slab_idx: u16 = match ledger.registry.resolve_slab(&fill.split.slab_id, &fill.oracle_id) {
        Ok(index) => index,
        Err(e) => {
            return Err(e);
        },
    };
    apply_fill(
        ledger,
        portfolio_key,
        slab_idx,
        fill.position_bump,
        fill.split.side,
        fill.receipt.filled_qty,
        fill.receipt.vwap_px,
        leverage,
        timestamp,
    )
}

/// Runs a whole settlement on the working ledger.
pub(crate) fn settle_in_place(
    ledger: &mut Ledger,
    portfolio_key: &Pubkey,
    fills: &Vec<SettledSplit>,
    leverage: u8,
    timestamp: i64,
) -> (result: Result<(), PercolatorError>)
    ensures
        match fills_settled(old(ledger)@, *portfolio_key, fills@, leverage, timestamp) {
            Ok(after) => result == Ok::<(), PercolatorError>(()) && final(ledger)@ == after,
            Err(e) => result == Err::<(), PercolatorError>(e),
        },
{
    if leverage < MIN_LEVERAGE || leverage > MAX_LEVERAGE {
        return Err(PercolatorError::InvalidInstruction);
    }
    if ledger.registry.slabs.len() > MAX_SLABS {
        return Err(PercolatorError::InvalidAccount);
    }
    let mut total_realized_pnl: i128 = 0;
    let mut i: usize = 0;
    while i < fills.len()
        invariant
            i <= fills.len(),
            MIN_LEVERAGE <= leverage <= MAX_LEVERAGE,
            old(ledger)@.registry.slabs.len() <= MAX_SLABS,
            ledger@.registry.slabs.len() <= MAX_SLABS,
            fills_applied(old(ledger)@, *portfolio_key, fills@, leverage, timestamp, i as int) == Ok::<
                (LedgerView, i128),
                PercolatorError,
            >((ledger@, total_realized_pnl)),
        decreases fills.len() - i,
    {
        let realized_pnl: i128 = match settle_fill(
            ledger,
            portfolio_key,
            &fills[i],
            leverage,
            timestamp,
        ) {
            Ok(pnl) => pnl,
            Err(e) => {
                proof {
                    assert(fills_applied(
                        old(ledger)@,
                        *portfolio_key,
                        fills@,
                        leverage,
                        timestamp,
                        i as int + 1,
                    ) == Err::<(LedgerView, i128), PercolatorError>(e));
                    lemma_fills_applied_refused(
                        old(ledger)@,
                        *portfolio_key,
                        fills@,
                        leverage,
                        timestamp,
                        i as int + 1,
                        fills@.len() as int,
                    );
                }
                return Err(e);
            },
        };
        total_realized_pnl = saturating_add_i128(total_realized_pnl, realized_pnl);
        i += 1;
    }
    reveal(trade_closed);
    match settle_pnl(&mut ledger.user, &mut ledger.dlp, total_realized_pnl) {
        Err(e) => {
            return Err(e);
        },
        Ok(_) => {},
    }
    let total_notional: u128 = total_taker_notional(fills);
    let im_required: u128 = match calculate_portfolio_margin_from_exposures(
        &ledger.user,
        portfolio_key,
        &ledger.positions,
    ) {
        Ok(im) => im,
        Err(e) => {
            return Err(e);
        },
    };
    ledger.user.update_margin(im_required, im_required / 2);
    if !ledger.user.has_sufficient_margin() {
        return Err(PercolatorError::PortfolioInsufficientMargin);
    }
    if total_notional > 0 {
        let params = ledger.registry.insurance_params;
        ledger.registry.insurance_state.accrue_from_fill(total_notional, &params);
    }
    Ok(())
}

/// Once a fill is refused, every longer run of fills is refused the same way.
pub proof fn lemma_fills_applied_refused(
    ledger: LedgerView,
    portfolio: Pubkey,
    fills: Seq<SettledSplit>,
    leverage: u8,
    timestamp: i64,
    n: int,
    m: int,
)
    requires
        0 <= n <= m,
        fills_applied(ledger, portfolio, fills, leverage, timestamp, n) is Err,
    ensures
        fills_applied(ledger, portfolio, fills, leverage, timestamp, m) == fills_applied(
            ledger,
            portfolio,
            fills,
            leverage,
            timestamp,
            n,
        ),
    decreases m - n,
{
    if n < m {
        lemma_fills_applied_refused(ledger, portfolio, fills, leverage, timestamp, n, m - 1);
    }
}

/// Settles a trade whose venues have answered.
///
/// The fills are applied in order: each opens or adds to the position on its
/// venue, reduces it, or reverses it, and moves the margin that goes with it.
/// Then the realized profit of all fills is settled between the trader and
/// the counterparty pool in one movement, the insurance fund takes its share
/// of the taker notional, and the margin requirement is recomputed from the
/// open positions.
///
/// The trade is refused as a whole, and the ledger is left exactly as it was,
/// when a receipt was not written, when a movement of collateral finds too
/// small a balance, when a figure leaves its range, or when equity ends below
/// the maintenance margin.
pub fn settle_fills(
    ledger: &mut Ledger,
    portfolio_key: &Pubkey,
    fills: &Vec<SettledSplit>,
    leverage: u8,
    timestamp: i64,
) -> (result: Result<(), PercolatorError>)
    ensures
        match fills_settled(old(ledger)@, *portfolio_key, fills@, leverage, timestamp) {
            Ok(after) => result == Ok::<(), PercolatorError>(()) && final(ledger)@ == after,
            Err(e) => result == Err::<(), PercolatorError>(e) && *final(ledger) == *old(ledger),
        },
        result is Ok ==> final(ledger)@.user.equity >= final(ledger)@.user.mm,
        result is Ok && ledger_wf(old(ledger)@, *portfolio_key) ==> ledger_wf(
            final(ledger)@,
            *portfolio_key,
        ),
{
    proof {
        lemma_settled_trade_covers_margin(old(ledger)@, *portfolio_key, fills@, leverage, timestamp);
        if ledger_wf(old(ledger)@, *portfolio_key) {
            lemma_settlement_keeps_ledger_wf(
                old(ledger)@,
                *portfolio_key,
                fills@,
                leverage,
                timestamp,
            );
        }
    }
    let mut work = ledger.snapshot();
    match settle_in_place(&mut work, portfolio_key, fills, leverage, timestamp) {
        Ok(_) => {
            *ledger = work;
            Ok(())
        },
        Err(e) => Err(e),
    }
}

} // verus!
