//! What holds of every settlement: a ledger that is in order stays in order,
//! an accepted trade covers its margin, and a reversal is a full reduction
//! followed by an opening.

use crate::book::{
    book_wf, has_position, held_quantity, is_first_position, lemma_book_after_push,
    lemma_book_after_remove, lemma_book_after_remove_own, lemma_book_after_update,
    lemma_first_position_unique, lemma_removed_position_is_gone, lemma_some_position,
    position_has_key, position_index, same_key,
};
use crate::collateral::margin_moved;
use crate::error::PercolatorError;
use crate::math::spec_abs;
use crate::portfolio::{
    entry_has_key, exposure_of, exposures_updated, exposures_wf, has_entry, is_first_entry,
    lemma_exposures_updated, lemma_first_entry_unique,
};
use crate::position_details::{
    closed_qty, lemma_margin_release_bounds, lemma_reduce_pnl_in_range,
};
use crate::settlement::{
    blank_position, fill_applied, fill_kind, fill_settled, fills_applied, fills_settled,
    exposure_unbacked, open_applied, open_margin, portfolio_margin, position_met, reduce_applied,
    signed_fill, some_exposure_unbacked, trade_closed,
    FillKind, LedgerView, SettledSplit, INSTRUMENT_INDEX, MAX_LEVERAGE, MIN_LEVERAGE,
};
use pinocchio::pubkey::Pubkey;
use vstd::prelude::*;

verus! {

/// The ledger of a portfolio is in order: no venue occurs twice among the
/// exposures, none of them is flat, and all are on the one instrument that a
/// venue trades; no two records share a key; every record holds quantity and
/// margin; and the exposure on every venue is the quantity of the record of
/// that venue.
pub open spec fn ledger_wf(ledger: LedgerView, portfolio: Pubkey) -> bool {
    &&& exposures_wf(ledger.user.exposures)
    &&& forall|i: int|
        0 <= i < ledger.user.exposures.len() ==> (#[trigger] ledger.user.exposures[i]).1
            == INSTRUMENT_INDEX
    &&& book_wf(ledger.positions)
    &&& forall|i: int|
        0 <= i < ledger.positions.len() ==> (#[trigger] ledger.positions[i]).total_qty != 0
            && ledger.positions[i].margin_held > 0
    &&& forall|slab_idx: u16|
        #[trigger] exposure_of(ledger.user.exposures, slab_idx, INSTRUMENT_INDEX)
            == held_quantity(ledger.positions, portfolio, slab_idx)
}

/// A trade that is accepted leaves equity at or above the maintenance margin.
pub proof fn lemma_settled_trade_covers_margin(
    ledger: LedgerView,
    portfolio: Pubkey,
    fills: Seq<SettledSplit>,
    leverage: u8,
    timestamp: i64,
)
    ensures
        fills_settled(ledger, portfolio, fills, leverage, timestamp) matches Ok(after)
            ==> after.user.equity >= after.user.mm,
{
    reveal(trade_closed);
}

/// On a ledger that is in order every open exposure has its record, so the
/// margin of the portfolio is known.
pub proof fn lemma_ledger_in_order_knows_its_margin(ledger: LedgerView, portfolio: Pubkey)
    requires
        ledger_wf(ledger, portfolio),
    ensures
        !some_exposure_unbacked(ledger.user.exposures, ledger.positions, portfolio),
        portfolio_margin(ledger.user.exposures, ledger.positions, portfolio) is Ok,
{
    let exposures = ledger.user.exposures;
    assert forall|i: int| 0 <= i < exposures.len() implies !exposure_unbacked(
        #[trigger] exposures[i],
        ledger.positions,
        portfolio,
    ) by {
        let entry = exposures[i];
        assert(entry.1 == INSTRUMENT_INDEX);
        assert(entry.2 != 0);
        assert forall|j: int| 0 <= j < i implies !entry_has_key(
            #[trigger] exposures[j],
            entry.0,
            entry.1,
        ) by {
            assert(!entry_has_key(exposures[j], exposures[i].0, exposures[i].1));
        }
        assert(is_first_entry(exposures, entry.0, entry.1, i));
        lemma_first_entry_unique(exposures, entry.0, entry.1, i);
        assert(exposure_of(exposures, entry.0, INSTRUMENT_INDEX) == held_quantity(
            ledger.positions,
            portfolio,
            entry.0,
        ));
    }
}

/// A reversal is a full reduction followed by an opening.
///
/// A fill that opposes a position and is larger than it gives the same ledger
/// as two fills of the same side in a row: one of exactly the held quantity,
/// which closes the position, and one of the rest, which opens a position the
/// other way. The profit realized is that of the closing fill. The record
/// that results holds the rest as its quantity and, as its margin, the margin
/// of opening the rest alone.
pub proof fn lemma_reverse_is_reduce_then_open(
    ledger: LedgerView,
    portfolio: Pubkey,
    slab_idx: u16,
    bump: u8,
    side: u8,
    filled_qty: i64,
    vwap_px: i64,
    leverage: u8,
    timestamp: i64,
)
    requires
        book_wf(ledger.positions),
        side <= 1,
        filled_qty > 0,
        1 <= leverage,
        has_position(ledger.positions, portfolio, slab_idx, INSTRUMENT_INDEX),
        fill_kind(
            ledger.positions[position_index(
                ledger.positions,
                portfolio,
                slab_idx,
                INSTRUMENT_INDEX,
            )].total_qty as int,
            signed_fill(side, filled_qty),
        ) == FillKind::Reverse,
    ensures
        ({
            let held = ledger.positions[position_index(
                ledger.positions,
                portfolio,
                slab_idx,
                INSTRUMENT_INDEX,
            )].total_qty;
            let whole = fill_applied(
                ledger,
                portfolio,
                slab_idx,
                bump,
                side,
                filled_qty,
                vwap_px,
                leverage,
                timestamp,
            );
            let closing = fill_applied(
                ledger,
                portfolio,
                slab_idx,
                bump,
                side,
                spec_abs(held as int) as i64,
                vwap_px,
                leverage,
                timestamp,
            );
            &&& closing is Err ==> whole == closing
            &&& closing matches Ok(closed) ==> {
                let opening = fill_applied(
                    closed.0,
                    portfolio,
                    slab_idx,
                    bump,
                    side,
                    (filled_qty - spec_abs(held as int)) as i64,
                    vwap_px,
                    leverage,
                    timestamp,
                );
                &&& closed.1 == ledger.positions[position_index(
                    ledger.positions,
                    portfolio,
                    slab_idx,
                    INSTRUMENT_INDEX,
                )].reduce_pnl(vwap_px, (-held) as i64)
                &&& !has_position(closed.0.positions, portfolio, slab_idx, INSTRUMENT_INDEX)
                &&& opening is Err ==> whole == opening
                &&& opening matches Ok(opened) ==> {
                    &&& whole == Ok::<(LedgerView, i128), PercolatorError>((opened.0, closed.1))
                    &&& has_position(opened.0.positions, portfolio, slab_idx, INSTRUMENT_INDEX)
                    &&& opened.0.positions[position_index(
                        opened.0.positions,
                        portfolio,
                        slab_idx,
                        INSTRUMENT_INDEX,
                    )].total_qty == signed_fill(side, filled_qty) + held
                    &&& opened.0.positions[position_index(
                        opened.0.positions,
                        portfolio,
                        slab_idx,
                        INSTRUMENT_INDEX,
                    )].margin_held == open_margin(
                        filled_qty - spec_abs(held as int),
                        leverage as int,
                    )
                }
            }
        }),
{
    let at = position_index(ledger.positions, portfolio, slab_idx, INSTRUMENT_INDEX);
    let record = ledger.positions[at];
    let held = record.total_qty;
    let fill = signed_fill(side, filled_qty);
    let held_abs = spec_abs(held as int);
    assert(held != 0);
    assert(held_abs < filled_qty);
    assert(signed_fill(side, held_abs as i64) == -held);
    assert(signed_fill(side, (filled_qty - held_abs) as i64) == fill + held);
    assert(position_met(ledger, portfolio, slab_idx, bump, vwap_px, leverage, timestamp) == record);
    assert(fill_kind(held as int, -held) == FillKind::Reduce);
    lemma_reduce_pnl_in_range(record, vwap_px, (-held) as i64);
    let closing = reduce_applied(ledger, portfolio, slab_idx, (-held) as i64, vwap_px, timestamp);
    assert(fill_applied(
        ledger,
        portfolio,
        slab_idx,
        bump,
        side,
        held_abs as i64,
        vwap_px,
        leverage,
        timestamp,
    ) == closing);
    if closing is Ok {
        let closed = closing->Ok_0;
        assert(closed_qty(held as int, -held) == held_abs);
        assert(record.reduce_remaining((-held) as i64) == 0);
        assert(record.reduced(vwap_px, (-held) as i64, 0, timestamp).total_qty == 0);
        assert(closed.0.positions == ledger.positions.remove(at));
        lemma_removed_position_is_gone(ledger.positions, portfolio, slab_idx, INSTRUMENT_INDEX);
        let blank = blank_position(portfolio, slab_idx, vwap_px, timestamp, bump, leverage);
        assert(position_met(closed.0, portfolio, slab_idx, bump, vwap_px, leverage, timestamp)
            == blank);
        assert(fill_kind(0, fill + held) == FillKind::OpenOrAdd);
        let opening = open_applied(
            closed.0,
            portfolio,
            slab_idx,
            bump,
            (fill + held) as i64,
            vwap_px,
            leverage,
            timestamp,
        );
        assert(fill_applied(
            closed.0,
            portfolio,
            slab_idx,
            bump,
            side,
            (filled_qty - held_abs) as i64,
            vwap_px,
            leverage,
            timestamp,
        ) == opening);
        if opening is Ok {
            let opened = opening->Ok_0;
            let rest = filled_qty - held_abs;
            let margin = open_margin(rest, leverage as int);
            assert(spec_abs(fill + held) == rest);
            assert(0 <= margin <= rest * 1_000) by (nonlinear_arith)
                requires
                    margin == (rest * 1_000) / (leverage as int),
                    rest >= 0,
                    leverage >= 1,
            ;
            let updated = blank.added(vwap_px, (fill + held) as i64, 0, timestamp, margin as u128);
            assert(opened.0.positions == closed.0.positions.push(updated));
            let last = closed.0.positions.len() as int;
            assert(opened.0.positions[last] == updated);
            assert(position_has_key(updated, portfolio, slab_idx, INSTRUMENT_INDEX));
            assert forall|j: int| 0 <= j < last implies !position_has_key(
                #[trigger] opened.0.positions[j],
                portfolio,
                slab_idx,
                INSTRUMENT_INDEX,
            ) by {
                assert(opened.0.positions[j] == closed.0.positions[j]);
                if position_has_key(closed.0.positions[j], portfolio, slab_idx, INSTRUMENT_INDEX) {
                    lemma_some_position(closed.0.positions, portfolio, slab_idx, INSTRUMENT_INDEX, j);
                }
            }
            assert(is_first_position(
                opened.0.positions,
                portfolio,
                slab_idx,
                INSTRUMENT_INDEX,
                last,
            ));
            lemma_first_position_unique(
                opened.0.positions,
                portfolio,
                slab_idx,
                INSTRUMENT_INDEX,
                last,
            );
        }
    }
}

/// Opening or adding keeps the ledger in order.
pub proof fn lemma_open_keeps_ledger_wf(
    ledger: LedgerView,
    portfolio: Pubkey,
    slab_idx: u16,
    bump: u8,
    fill: i64,
    vwap_px: i64,
    leverage: u8,
    timestamp: i64,
)
    requires
        ledger_wf(ledger, portfolio),
        fill != 0,
        1 <= leverage,
    ensures
        open_applied(ledger, portfolio, slab_idx, bump, fill, vwap_px, leverage, timestamp)
            matches Ok(after) ==> ledger_wf(after.0, portfolio) && after.0.registry
            == ledger.registry,
{
    let outcome = open_applied(
        ledger,
        portfolio,
        slab_idx,
        bump,
        fill,
        vwap_px,
        leverage,
        timestamp,
    );
    if outcome is Ok {
        let after = outcome->Ok_0.0;
        let existing = has_position(ledger.positions, portfolio, slab_idx, INSTRUMENT_INDEX);
        let at = position_index(ledger.positions, portfolio, slab_idx, INSTRUMENT_INDEX);
        let record = position_met(ledger, portfolio, slab_idx, bump, vwap_px, leverage, timestamp);
        let margin_int = open_margin(spec_abs(fill as int), leverage as int);
        assert(3 <= margin_int <= spec_abs(fill as int) * 1_000) by (nonlinear_arith)
            requires
                margin_int == (spec_abs(fill as int) * 1_000) / (leverage as int),
                spec_abs(fill as int) >= 1,
                1 <= leverage <= 255,
        ;
        let margin = margin_int as u128;
        let updated = record.added(vwap_px, fill, 0, timestamp, margin);
        let moved = margin_moved(ledger.user, ledger.dlp, margin)->Ok_0;
        assert(moved.0.exposures == ledger.user.exposures);
        if existing {
            assert(is_first_position(ledger.positions, portfolio, slab_idx, INSTRUMENT_INDEX, at));
        }
        assert(updated.total_qty == record.total_qty + fill);
        assert(updated.total_qty != 0);
        assert(updated.margin_held > 0);
        assert(same_key(record, updated));
        assert(position_has_key(updated, portfolio, slab_idx, INSTRUMENT_INDEX));
        assert(after.user.exposures == exposures_updated(
            ledger.user.exposures,
            slab_idx,
            INSTRUMENT_INDEX,
            updated.total_qty,
        ));
        lemma_exposures_updated(
            ledger.user.exposures,
            slab_idx,
            INSTRUMENT_INDEX,
            updated.total_qty,
            slab_idx,
            INSTRUMENT_INDEX,
        );
        if existing {
            lemma_book_after_update(
                ledger.positions,
                at,
                updated,
                portfolio,
                slab_idx,
                INSTRUMENT_INDEX,
            );
        } else {
            lemma_book_after_push(ledger.positions, updated, portfolio, slab_idx, INSTRUMENT_INDEX);
        }
        assert forall|i: int| 0 <= i < after.positions.len() implies (
        #[trigger] after.positions[i]).total_qty != 0 && after.positions[i].margin_held > 0 by {
            if existing {
                if i != at {
                    assert(after.positions[i] == ledger.positions[i]);
                }
            } else {
                if i < ledger.positions.len() {
                    assert(after.positions[i] == ledger.positions[i]);
                }
            }
        }
        assert forall|s: u16| #[trigger]
            exposure_of(after.user.exposures, s, INSTRUMENT_INDEX)
                == held_quantity(after.positions, portfolio, s) by {
            lemma_exposures_updated(
                ledger.user.exposures,
                slab_idx,
                INSTRUMENT_INDEX,
                updated.total_qty,
                s,
                INSTRUMENT_INDEX,
            );
            assert(exposure_of(ledger.user.exposures, s, INSTRUMENT_INDEX)
                == held_quantity(ledger.positions, portfolio, s));
            if existing {
                lemma_book_after_update(
                    ledger.positions,
                    at,
                    updated,
                    portfolio,
                    s,
                    INSTRUMENT_INDEX,
                );
                if s != slab_idx && has_position(ledger.positions, portfolio, s, INSTRUMENT_INDEX) {
                    let k = position_index(ledger.positions, portfolio, s, INSTRUMENT_INDEX);
                    assert(is_first_position(ledger.positions, portfolio, s, INSTRUMENT_INDEX, k));
                    assert(k != at);
                }
            } else {
                lemma_book_after_push(ledger.positions, updated, portfolio, s, INSTRUMENT_INDEX);
                if s != slab_idx && has_position(ledger.positions, portfolio, s, INSTRUMENT_INDEX) {
                    let k = position_index(ledger.positions, portfolio, s, INSTRUMENT_INDEX);
                    assert(is_first_position(ledger.positions, portfolio, s, INSTRUMENT_INDEX, k));
                }
            }
        }
    }
}

/// Reducing keeps the ledger in order.
pub proof fn lemma_reduce_keeps_ledger_wf(
    ledger: LedgerView,
    portfolio: Pubkey,
    slab_idx: u16,
    fill: i64,
    vwap_px: i64,
    timestamp: i64,
)
    requires
        ledger_wf(ledger, portfolio),
    ensures
        reduce_applied(ledger, portfolio, slab_idx, fill, vwap_px, timestamp) matches Ok(after)
            ==> ledger_wf(after.0, portfolio) && after.0.registry == ledger.registry,
{
    let outcome = reduce_applied(ledger, portfolio, slab_idx, fill, vwap_px, timestamp);
    if outcome is Ok {
        let after = outcome->Ok_0.0;
        let at = position_index(ledger.positions, portfolio, slab_idx, INSTRUMENT_INDEX);
        assert(is_first_position(ledger.positions, portfolio, slab_idx, INSTRUMENT_INDEX, at));
        let record = ledger.positions[at];
        let reduced = record.reduced(vwap_px, fill, 0, timestamp);
        let closed = closed_qty(record.total_qty as int, fill as int);
        lemma_margin_release_bounds(
            record.margin_held as int,
            closed,
            spec_abs(record.total_qty as int),
        );
        let moved = margin_moved(ledger.dlp, ledger.user, record.reduce_release(fill) as u128)->Ok_0;
        assert(moved.1.exposures == ledger.user.exposures);
        assert(reduced.total_qty == record.reduce_remaining(fill));
        assert(same_key(record, reduced));
        assert(after.user.exposures == exposures_updated(
            ledger.user.exposures,
            slab_idx,
            INSTRUMENT_INDEX,
            reduced.total_qty,
        ));
        lemma_exposures_updated(
            ledger.user.exposures,
            slab_idx,
            INSTRUMENT_INDEX,
            reduced.total_qty,
            slab_idx,
            INSTRUMENT_INDEX,
        );
        assert(exposure_of(ledger.user.exposures, slab_idx, INSTRUMENT_INDEX)
            == held_quantity(ledger.positions, portfolio, slab_idx));
        assert(has_entry(ledger.user.exposures, slab_idx, INSTRUMENT_INDEX));
        if reduced.total_qty == 0 {
            lemma_removed_position_is_gone(ledger.positions, portfolio, slab_idx, INSTRUMENT_INDEX);
        } else {
            lemma_book_after_update(
                ledger.positions,
                at,
                reduced,
                portfolio,
                slab_idx,
                INSTRUMENT_INDEX,
            );
            assert(reduced.margin_held > 0);
        }
        assert(book_wf(after.positions)) by {
            if reduced.total_qty == 0 {
                lemma_book_after_remove_own(ledger.positions, at);
            }
        }
        assert forall|i: int| 0 <= i < after.positions.len() implies (
        #[trigger] after.positions[i]).total_qty != 0 && after.positions[i].margin_held > 0 by {
            if reduced.total_qty == 0 {
                let src = if i < at {
                    i
                } else {
                    i + 1
                };
                assert(after.positions[i] == ledger.positions[src]);
            } else {
                if i != at {
                    assert(after.positions[i] == ledger.positions[i]);
                }
            }
        }
        assert forall|s: u16| #[trigger]
            exposure_of(after.user.exposures, s, INSTRUMENT_INDEX)
                == held_quantity(after.positions, portfolio, s) by {
            lemma_exposures_updated(
                ledger.user.exposures,
                slab_idx,
                INSTRUMENT_INDEX,
                reduced.total_qty,
                s,
                INSTRUMENT_INDEX,
            );
            assert(exposure_of(ledger.user.exposures, s, INSTRUMENT_INDEX)
                == held_quantity(ledger.positions, portfolio, s));
            if s != slab_idx {
                if reduced.total_qty == 0 {
                    lemma_book_after_remove(
                        ledger.positions,
                        at,
                        portfolio,
                        s,
                        INSTRUMENT_INDEX,
                    );
                } else {
                    lemma_book_after_update(
                        ledger.positions,
                        at,
                        reduced,
                        portfolio,
                        s,
                        INSTRUMENT_INDEX,
                    );
                    if has_position(ledger.positions, portfolio, s, INSTRUMENT_INDEX) {
                        let k = position_index(ledger.positions, portfolio, s, INSTRUMENT_INDEX);
                        assert(is_first_position(
                            ledger.positions,
                            portfolio,
                            s,
                            INSTRUMENT_INDEX,
                            k,
                        ));
                        assert(k != at);
                    }
                }
            }
        }
    }
}

/// Every fill keeps the ledger in order: after it, as before, the exposures
/// are those of the position records, no record is flat or without margin,
/// and no key occurs twice.
pub proof fn lemma_fill_keeps_ledger_wf(
    ledger: LedgerView,
    portfolio: Pubkey,
    slab_idx: u16,
    bump: u8,
    side: u8,
    filled_qty: i64,
    vwap_px: i64,
    leverage: u8,
    timestamp: i64,
)
    requires
        ledger_wf(ledger, portfolio),
        filled_qty > 0,
        1 <= leverage,
    ensures
        fill_applied(
            ledger,
            portfolio,
            slab_idx,
            bump,
            side,
            filled_qty,
            vwap_px,
            leverage,
            timestamp,
        ) matches Ok(after) ==> ledger_wf(after.0, portfolio) && after.0.registry
            == ledger.registry,
{
    let fill = signed_fill(side, filled_qty);
    let held = position_met(
        ledger,
        portfolio,
        slab_idx,
        bump,
        vwap_px,
        leverage,
        timestamp,
    ).total_qty;
    match fill_kind(held as int, fill) {
        FillKind::OpenOrAdd => {
            lemma_open_keeps_ledger_wf(
                ledger,
                portfolio,
                slab_idx,
                bump,
                fill as i64,
                vwap_px,
                leverage,
                timestamp,
            );
        },
        FillKind::Reduce => {
            lemma_reduce_keeps_ledger_wf(
                ledger,
                portfolio,
                slab_idx,
                fill as i64,
                vwap_px,
                timestamp,
            );
        },
        FillKind::Reverse => {
            lemma_reduce_keeps_ledger_wf(
                ledger,
                portfolio,
                slab_idx,
                (-held) as i64,
                vwap_px,
                timestamp,
            );
            let closing = reduce_applied(
                ledger,
                portfolio,
                slab_idx,
                (-held) as i64,
                vwap_px,
                timestamp,
            );
            if closing is Ok {
                lemma_open_keeps_ledger_wf(
                    closing->Ok_0.0,
                    portfolio,
                    slab_idx,
                    bump,
                    (fill + held) as i64,
                    vwap_px,
                    leverage,
                    timestamp,
                );
            }
        },
    }
}

/// The fills of a trade, one after the other, keep the ledger in order.
pub proof fn lemma_fills_keep_ledger_wf(
    ledger: LedgerView,
    portfolio: Pubkey,
    fills: Seq<SettledSplit>,
    leverage: u8,
    timestamp: i64,
    n: int,
)
    requires
        ledger_wf(ledger, portfolio),
        1 <= leverage,
        0 <= n <= fills.len(),
    ensures
        fills_applied(ledger, portfolio, fills, leverage, timestamp, n) matches Ok(after)
            ==> ledger_wf(after.0, portfolio),
    decreases n,
{
    if n > 0 {
        lemma_fills_keep_ledger_wf(ledger, portfolio, fills, leverage, timestamp, n - 1);
        match fills_applied(ledger, portfolio, fills, leverage, timestamp, n - 1) {
            Ok(before) => {
                reveal(fill_settled);
                let fill = fills[n - 1];
                if fill.split.side <= 1 && fill.receipt.used && fill.receipt.filled_qty > 0 {
                    match before.0.registry.resolve(fill.split.slab_id) {
                        Some(slab_idx) => {
                            lemma_fill_keeps_ledger_wf(
                                LedgerView {
                                    registry: before.0.registry.resolved(
                                        fill.split.slab_id,
                                        fill.oracle_id,
                                    ),
                                    ..before.0
                                },
                                portfolio,
                                slab_idx,
                                fill.position_bump,
                                fill.split.side,
                                fill.receipt.filled_qty,
                                fill.receipt.vwap_px,
                                leverage,
                                timestamp,
                            );
                        },
                        None => {},
                    }
                }
            },
            Err(_) => {},
        }
    }
}

/// A settled trade keeps the ledger in order.
pub proof fn lemma_settlement_keeps_ledger_wf(
    ledger: LedgerView,
    portfolio: Pubkey,
    fills: Seq<SettledSplit>,
    leverage: u8,
    timestamp: i64,
)
    requires
        ledger_wf(ledger, portfolio),
    ensures
        fills_settled(ledger, portfolio, fills, leverage, timestamp) matches Ok(after)
            ==> ledger_wf(after, portfolio),
{
    if MIN_LEVERAGE <= leverage <= MAX_LEVERAGE {
        lemma_fills_keep_ledger_wf(
            ledger,
            portfolio,
            fills,
            leverage,
            timestamp,
            fills.len() as int,
        );
        reveal(trade_closed);
    }
}

} // verus!
