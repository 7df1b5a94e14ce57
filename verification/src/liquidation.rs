//! Liquidation: the forced closing of positions when a portfolio no longer
//! covers its margin.
//!
//! Positions are closed one venue after the other, in the order of the
//! registry, each in full and at the oracle price of its venue, with the
//! arithmetic of an ordinary reduction. Closing stops as soon as equity
//! covers the margin again. A loss that the trader cannot pay is covered by
//! the insurance fund as far as the fund reaches; what is left uncovered
//! lowers the global haircut index, so that it is borne by all unvested
//! profit.

use crate::collateral::{margin_moved, pnl_settled, return_margin_to_user, settle_pnl};
use crate::error::PercolatorError;
use crate::insurance::coverage_of;
use crate::math::{clamp_i128, saturating_add_i128, saturating_sub_i128};
use crate::portfolio::{
    exposure_of, exposures_updated, lemma_exposures_updated, Portfolio, PortfolioView,
};
use crate::position_details::{lemma_reduce_pnl_in_range, PositionDetails};
use crate::pubkey::pubkey_eq;
use crate::registry::{SlabRegistry, SlabRegistryView, MAX_SLABS};
use crate::book::{
    find_position, has_position, held_quantity, is_first_position, lemma_book_after_remove,
    lemma_book_after_remove_own, lemma_removed_position_is_gone, position_index,
};
use crate::settlement::{
    calculate_portfolio_margin_from_exposures, portfolio_margin, Ledger, LedgerView,
    INSTRUMENT_INDEX,
};
use crate::settlement_laws::ledger_wf;
use crate::vesting::{on_user_touch, touched, GlobalHaircut};
use pinocchio::pubkey::Pubkey;
use vstd::prelude::*;

verus! {

/// Tells whether a portfolio is to be liquidated: its equity is below the
/// maintenance margin, or, for a liquidation ahead of the breach, below the
/// initial margin.
pub open spec fn needs_liquidation(portfolio: PortfolioView, is_preliq: bool) -> bool {
    if is_preliq {
        portfolio.equity < portfolio.im
    } else {
        portfolio.equity < portfolio.mm
    }
}

/// The unvested profit that the pool owes on net, counted up to the end of
/// the balance range.
pub open spec fn socialization_base(pool_pnl: i128) -> int {
    if pool_pnl >= 0 {
        0
    } else if -pool_pnl > u64::MAX {
        u64::MAX as int
    } else {
        -pool_pnl
    }
}

/// The global haircut after an uncovered loss: the index falls in the
/// proportion of the loss to the profit that the pool owes, rounded down.
/// Without such profit there is nothing to take the loss from.
pub open spec fn haircut_socialized(haircut: GlobalHaircut, uncovered: int, pool_pnl: i128)
    -> GlobalHaircut {
    let base = socialization_base(pool_pnl);
    let cut = if uncovered < base {
        uncovered
    } else {
        base
    };
    if cut <= 0 {
        haircut
    } else {
        GlobalHaircut { pnl_index: ((haircut.pnl_index * (base - cut)) / base) as u64 }
    }
}

/// What the trader can pay of a loss: the loss, at most the balance.
pub open spec fn paid_by_trader(user: PortfolioView, loss: int) -> int {
    if loss <= user.lamports {
        loss
    } else {
        user.lamports as int
    }
}

/// The trader after a loss: the balance falls by what the trader pays,
/// equity and unvested profit by the whole loss.
pub open spec fn loss_debited(user: PortfolioView, loss: int) -> PortfolioView {
    PortfolioView {
        lamports: (user.lamports - paid_by_trader(user, loss)) as u64,
        equity: clamp_i128(user.equity - loss) as i128,
        pnl: clamp_i128(user.pnl - loss) as i128,
        ..user
    }
}

/// The pool after it has received `amount` toward a loss.
pub open spec fn loss_credited(dlp: PortfolioView, amount: int) -> PortfolioView {
    PortfolioView {
        lamports: (dlp.lamports + amount) as u64,
        equity: clamp_i128(dlp.equity + amount) as i128,
        pnl: clamp_i128(dlp.pnl + amount) as i128,
        ..dlp
    }
}

/// The ledger after the trader's loss of `loss` has been absorbed: the
/// trader pays what the balance allows, the insurance fund covers the
/// shortfall as far as it reaches, the pool receives both, and what stays
/// uncovered lowers the haircut index.
pub open spec fn loss_absorbed(ledger: LedgerView, loss: int) -> Result<LedgerView, PercolatorError> {
    let from_user = paid_by_trader(ledger.user, loss);
    let shortfall = loss - from_user;
    let payout = coverage_of(ledger.registry.insurance_state.vault_balance as int, shortfall);
    if ledger.dlp.lamports + from_user + payout > u64::MAX {
        Err(PercolatorError::Overflow)
    } else {
        Ok(
            LedgerView {
                user: loss_debited(ledger.user, loss),
                dlp: loss_credited(ledger.dlp, from_user + payout),
                registry: SlabRegistryView {
                    insurance_state: ledger.registry.insurance_state.covered(shortfall as u128),
                    global_haircut: haircut_socialized(
                        ledger.registry.global_haircut,
                        shortfall - payout,
                        ledger.dlp.pnl,
                    ),
                    ..ledger.registry
                },
                positions: ledger.positions,
            },
        )
    }
}

/// The ledger after the position on the venue `slab_idx` has been closed in
/// full at `price`: its margin returns to the trader, its profit is settled
/// or its loss absorbed, the record and the exposure are gone, and the
/// margin requirement is recomputed from the records of the exposures that
/// stay open, every one of which has to be on the book.
pub open spec fn position_liquidated(
    ledger: LedgerView,
    portfolio: Pubkey,
    slab_idx: u16,
    price: i64,
    timestamp: i64,
) -> Result<LedgerView, PercolatorError> {
    let at = position_index(ledger.positions, portfolio, slab_idx, INSTRUMENT_INDEX);
    let record = ledger.positions[at];
    let pnl = record.reduce_pnl(price, record.total_qty);
    match margin_moved(ledger.dlp, ledger.user, record.margin_held) {
        Err(e) => Err(e),
        Ok(moved) => {
            let returned = LedgerView {
                user: moved.1.with_exposure(slab_idx, INSTRUMENT_INDEX, 0),
                dlp: moved.0,
                positions: ledger.positions.remove(at),
                ..ledger
            };
            let settled = if pnl >= 0 {
                match pnl_settled(returned.user, returned.dlp, pnl as i128) {
                    Err(e) => Err(e),
                    Ok(paid) => Ok(LedgerView { user: paid.0, dlp: paid.1, ..returned }),
                }
            } else {
                loss_absorbed(returned, -pnl)
            };
            match settled {
                Err(e) => Err(e),
                Ok(after) => match portfolio_margin(
                    after.user.exposures,
                    after.positions,
                    portfolio,
                ) {
                    Err(e) => Err(e),
                    Ok(im) => Ok(LedgerView { user: after.user.with_margin(im, im / 2), ..after }),
                },
            }
        },
    }
}

/// The ledger after the venues with the first `k` indices have been gone
/// through: a position is closed while the portfolio is still to be
/// liquidated, and left alone once it is not. A position whose venue has no
/// oracle price fails the liquidation.
pub open spec fn liquidated_upto(
    ledger: LedgerView,
    portfolio: Pubkey,
    oracle_prices: Seq<Option<i64>>,
    is_preliq: bool,
    timestamp: i64,
    k: int,
) -> Result<LedgerView, PercolatorError>
    decreases k,
{
    if k <= 0 {
        Ok(ledger)
    } else {
        match liquidated_upto(ledger, portfolio, oracle_prices, is_preliq, timestamp, k - 1) {
            Err(e) => Err(e),
            Ok(before) => if !needs_liquidation(before.user, is_preliq) || !has_position(
                before.positions,
                portfolio,
                (k - 1) as u16,
                INSTRUMENT_INDEX,
            ) {
                Ok(before)
            } else {
                match oracle_prices[k - 1] {
                    None => Err(PercolatorError::InvalidOracle),
                    Some(price) => position_liquidated(
                        before,
                        portfolio,
                        (k - 1) as u16,
                        price,
                        timestamp,
                    ),
                }
            },
        }
    }
}

/// The ledger after a liquidation, or why the liquidation fails: the
/// registry has to be within its bound and bring one oracle price, present
/// or not, for each of its venues; the portfolio is brought up to date; then
/// the venues are gone through in the order of their indices.
pub open spec fn liquidated(
    ledger: LedgerView,
    portfolio: Pubkey,
    oracle_prices: Seq<Option<i64>>,
    is_preliq: bool,
    current_slot: u64,
    timestamp: i64,
) -> Result<LedgerView, PercolatorError> {
    if ledger.registry.slabs.len() > MAX_SLABS {
        Err(PercolatorError::InvalidAccount)
    } else if oracle_prices.len() != ledger.registry.slabs.len() {
        Err(PercolatorError::InvalidInstruction)
    } else {
        liquidated_upto(
            LedgerView {
                user: touched(
                    ledger.user,
                    ledger.registry.global_haircut,
                    ledger.registry.pnl_vesting_params,
                    current_slot,
                ),
                ..ledger
            },
            portfolio,
            oracle_prices,
            is_preliq,
            timestamp,
            oracle_prices.len() as int,
        )
    }
}

/// Once a venue fails the liquidation, going on changes nothing.
pub proof fn lemma_liquidation_failed(
    ledger: LedgerView,
    portfolio: Pubkey,
    oracle_prices: Seq<Option<i64>>,
    is_preliq: bool,
    timestamp: i64,
    n: int,
    m: int,
)
    requires
        0 <= n <= m,
        liquidated_upto(ledger, portfolio, oracle_prices, is_preliq, timestamp, n) is Err,
    ensures
        liquidated_upto(ledger, portfolio, oracle_prices, is_preliq, timestamp, m)
            == liquidated_upto(ledger, portfolio, oracle_prices, is_preliq, timestamp, n),
    decreases m - n,
{
    if n < m {
        lemma_liquidation_failed(ledger, portfolio, oracle_prices, is_preliq, timestamp, n, m - 1);
    }
}

/// Tells whether `i` is the first feed with the address `oracle_id`.
pub open spec fn is_first_feed(feeds: Seq<(Pubkey, Option<i64>)>, oracle_id: Pubkey, i: int) -> bool {
    &&& 0 <= i < feeds.len()
    &&& feeds[i].0@ == oracle_id@
    &&& forall|j: int| 0 <= j < i ==> (#[trigger] feeds[j]).0@ != oracle_id@
}

/// The price that the feeds offer for the oracle `oracle_id`: that of the
/// first feed with this address, none where no feed has it.
pub open spec fn price_offered(feeds: Seq<(Pubkey, Option<i64>)>, oracle_id: Pubkey, price: Option<
    i64,
>) -> bool {
    if exists|i: int| is_first_feed(feeds, oracle_id, i) {
        exists|i: int| is_first_feed(feeds, oracle_id, i) && price == feeds[i].1
    } else {
        price is None
    }
}

/// Looks up the price of one oracle among the feeds.
fn find_price(feeds: &Vec<(Pubkey, Option<i64>)>, oracle_id: &Pubkey) -> (price: Option<i64>)
    ensures
        price_offered(feeds@, *oracle_id, price),
{
    let mut i: usize = 0;
    while i < feeds.len()
        invariant
            i <= feeds.len(),
            forall|j: int| 0 <= j < i ==> (#[trigger] feeds@[j]).0@ != oracle_id@,
        decreases feeds.len() - i,
    {
        if pubkey_eq(&feeds[i].0, oracle_id) {
            assert(is_first_feed(feeds@, *oracle_id, i as int));
            return feeds[i].1;
        }
        i += 1;
    }
    assert forall|k: int| !is_first_feed(feeds@, *oracle_id, k) by {
        if 0 <= k < feeds@.len() {
            assert(feeds@[k].0@ != oracle_id@);
        }
    }
    None
}

/// Collects, for every venue of the registry in the order of the indices,
/// the price that the feeds offer for the venue's oracle.
pub fn collect_oracle_prices(registry: &SlabRegistry, feeds: &Vec<(Pubkey, Option<i64>)>) -> (prices:
    Vec<Option<i64>>)
    ensures
        prices@.len() == registry@.slabs.len(),
        forall|k: int|
            0 <= k < prices@.len() ==> price_offered(
                feeds@,
                registry@.slabs[k].oracle_id,
                #[trigger] prices@[k],
            ),
{
    let mut prices: Vec<Option<i64>> = Vec::new();
    let mut k: usize = 0;
    while k < registry.slabs.len()
        invariant
            k <= registry.slabs.len(),
            prices@.len() == k,
            forall|j: int|
                0 <= j < k ==> price_offered(
                    feeds@,
                    registry@.slabs[j].oracle_id,
                    #[trigger] prices@[j],
                ),
        decreases registry.slabs.len() - k,
    {
        prices.push(find_price(feeds, &registry.slabs[k].oracle_id));
        k += 1;
    }
    prices
}

/// Tells whether a portfolio is to be liquidated.
pub fn is_liquidatable(portfolio: &Portfolio, is_preliq: bool) -> (liquidatable: bool)
    ensures
        liquidatable == needs_liquidation(portfolio@, is_preliq),
{
    let threshold: u128 = if is_preliq {
        portfolio.im
    } else {
        portfolio.mm
    };
    portfolio.equity < 0 || (portfolio.equity as u128) < threshold
}

/// Lowers the haircut index by an uncovered loss.
fn socialize(haircut: &mut GlobalHaircut, uncovered: u128, pool_pnl: i128)
    ensures
        *final(haircut) == haircut_socialized(*old(haircut), uncovered as int, pool_pnl),
{
    let base: u64 = if pool_pnl >= 0 {
        0
    } else if pool_pnl < -(u64::MAX as i128) {
        u64::MAX
    } else {
        (-pool_pnl) as u64
    };
    let cut: u64 = if uncovered < base as u128 {
        uncovered as u64
    } else {
        base
    };
    if cut > 0 {
        let kept: u128 = (base - cut) as u128;
        let index: u128 = haircut.pnl_index as u128;
        assert(index * kept <= 0xffff_ffff_ffff_ffff_ffff_ffff_ffff_ffff && (index as int * kept
            as int) / (base as int) <= index) by (nonlinear_arith)
            requires
                0 <= index <= 0xffff_ffff_ffff_ffff,
                0 <= kept < base,
                base <= 0xffff_ffff_ffff_ffff,
        ;
        haircut.pnl_index = ((index * kept) / (base as u128)) as u64;
    }
}

/// Absorbs a loss of the trader on the working ledger.
fn absorb_loss(ledger: &mut Ledger, loss: u128) -> (result: Result<(), PercolatorError>)
    requires
        0 < loss <= 0x8000_0000_0000_0000_0000_0000_0000_0000,
    ensures
        match loss_absorbed(old(ledger)@, loss as int) {
            Ok(after) => result == Ok::<(), PercolatorError>(()) && final(ledger)@ == after,
            Err(e) => result == Err::<(), PercolatorError>(e),
        },
        final(ledger)@.registry.slabs == old(ledger)@.registry.slabs,
{
    let from_user: u64 = if loss <= ledger.user.lamports as u128 {
        loss as u64
    } else {
        ledger.user.lamports
    };
    let shortfall: u128 = loss - (from_user as u128);
    let balance: u128 = ledger.registry.insurance_state.vault_balance;
    let payout: u128 = if shortfall <= balance {
        shortfall
    } else {
        balance
    };
    let room: u64 = u64::MAX - ledger.dlp.lamports;
    if payout > (room - if from_user <= room {
        from_user
    } else {
        room
    }) as u128 || from_user > room {
        return Err(PercolatorError::Overflow);
    }
    let received: u64 = from_user + (payout as u64);
    let pool_pnl: i128 = ledger.dlp.pnl;
    let loss_debit: i128 = if loss > i128::MAX as u128 {
        i128::MAX
    } else {
        loss as i128
    };
    ledger.user.lamports = ledger.user.lamports - from_user;
    if loss > i128::MAX as u128 {
        ledger.user.equity = saturating_sub_i128(saturating_sub_i128(ledger.user.equity, i128::MAX), 1);
        ledger.user.pnl = saturating_sub_i128(saturating_sub_i128(ledger.user.pnl, i128::MAX), 1);
    } else {
        ledger.user.equity = saturating_sub_i128(ledger.user.equity, loss_debit);
        ledger.user.pnl = saturating_sub_i128(ledger.user.pnl, loss_debit);
    }
    ledger.dlp.lamports = ledger.dlp.lamports + received;
    ledger.dlp.equity = saturating_add_i128(ledger.dlp.equity, received as i128);
    ledger.dlp.pnl = saturating_add_i128(ledger.dlp.pnl, received as i128);
    ledger.registry.insurance_state.cover_shortfall(shortfall);
    socialize(&mut ledger.registry.global_haircut, shortfall - payout, pool_pnl);
    Ok(())
}

/// Closes the position on the venue `slab_idx` on the working ledger.
fn liquidate_position(
    ledger: &mut Ledger,
    portfolio_key: &Pubkey,
    slab_idx: u16,
    at: usize,
    price: i64,
    timestamp: i64,
) -> (result: Result<(), PercolatorError>)
    requires
        has_position(old(ledger)@.positions, *portfolio_key, slab_idx, INSTRUMENT_INDEX),
        at == position_index(old(ledger)@.positions, *portfolio_key, slab_idx, INSTRUMENT_INDEX),
        at < old(ledger)@.positions.len(),
    ensures
        match position_liquidated(old(ledger)@, *portfolio_key, slab_idx, price, timestamp) {
            Ok(after) => result == Ok::<(), PercolatorError>(()) && final(ledger)@ == after,
            Err(e) => result == Err::<(), PercolatorError>(e),
        },
        final(ledger)@.registry.slabs == old(ledger)@.registry.slabs,
{
    let record: PositionDetails = ledger.positions[at];
    proof {
        lemma_reduce_pnl_in_range(record, price, record.total_qty);
    }
    let pnl: i128 = crate::settlement::calculate_closing_pnl(&record, price);
    match return_margin_to_user(&mut ledger.user, &mut ledger.dlp, record.margin_held) {
        Err(e) => {
            return Err(e);
        },
        Ok(_) => {},
    }
    match ledger.user.update_exposure(slab_idx, INSTRUMENT_INDEX, 0) {
        Err(e) => {
            return Err(e);
        },
        Ok(_) => {},
    }
    ledger.positions.remove(at);
    if pnl >= 0 {
        match settle_pnl(&mut ledger.user, &mut ledger.dlp, pnl) {
            Err(e) => {
                return Err(e);
            },
            Ok(_) => {},
        }
    } else {
        let loss: u128 = if pnl == i128::MIN {
            0x8000_0000_0000_0000_0000_0000_0000_0000
        } else {
            (-pnl) as u128
        };
        match absorb_loss(ledger, loss) {
            Err(e) => {
                return Err(e);
            },
            Ok(_) => {},
        }
    }
    let im: u128 = match calculate_portfolio_margin_from_exposures(
        &ledger.user,
        portfolio_key,
        &ledger.positions,
    ) {
        Ok(im) => im,
        Err(e) => {
            return Err(e);
        },
    };
    ledger.user.update_margin(im, im / 2);
    Ok(())
}

/// Runs a liquidation on the working ledger.
fn liquidate_in_place(
    ledger: &mut Ledger,
    portfolio_key: &Pubkey,
    oracle_prices: &Vec<Option<i64>>,
    is_preliq: bool,
    timestamp: i64,
) -> (result: Result<(), PercolatorError>)
    requires
        old(ledger)@.registry.slabs.len() <= MAX_SLABS,
        oracle_prices@.len() == old(ledger)@.registry.slabs.len(),
    ensures
        match liquidated_upto(
            old(ledger)@,
            *portfolio_key,
            oracle_prices@,
            is_preliq,
            timestamp,
            oracle_prices@.len() as int,
        ) {
            Ok(after) => result == Ok::<(), PercolatorError>(()) && final(ledger)@ == after,
            Err(e) => result == Err::<(), PercolatorError>(e),
        },
{
    let count: usize = oracle_prices.len();
    let mut k: usize = 0;
    while k < count
        invariant
            k <= count <= MAX_SLABS,
            count == oracle_prices@.len(),
            liquidated_upto(
                old(ledger)@,
                *portfolio_key,
                oracle_prices@,
                is_preliq,
                timestamp,
                k as int,
            ) == Ok::<LedgerView, PercolatorError>(ledger@),
        decreases count - k,
    {
        if is_liquidatable(&ledger.user, is_preliq) {
            match find_position(&ledger.positions, portfolio_key, k as u16, INSTRUMENT_INDEX) {
                None => {},
                Some(at) => {
                    let price: i64 = match oracle_prices[k] {
                        Some(price) => price,
                        None => {
                            proof {
                                assert(liquidated_upto(
                                    old(ledger)@,
                                    *portfolio_key,
                                    oracle_prices@,
                                    is_preliq,
                                    timestamp,
                                    k as int + 1,
                                ) is Err);
                                lemma_liquidation_failed(
                                    old(ledger)@,
                                    *portfolio_key,
                                    oracle_prices@,
                                    is_preliq,
                                    timestamp,
                                    k as int + 1,
                                    count as int,
                                );
                            }
                            return Err(PercolatorError::InvalidOracle);
                        },
                    };
                    match liquidate_position(ledger, portfolio_key, k as u16, at, price, timestamp) {
                        Ok(_) => {},
                        Err(e) => {
                            proof {
                                assert(liquidated_upto(
                                    old(ledger)@,
                                    *portfolio_key,
                                    oracle_prices@,
                                    is_preliq,
                                    timestamp,
                                    k as int + 1,
                                ) is Err);
                                lemma_liquidation_failed(
                                    old(ledger)@,
                                    *portfolio_key,
                                    oracle_prices@,
                                    is_preliq,
                                    timestamp,
                                    k as int + 1,
                                    count as int,
                                );
                            }
                            return Err(e);
                        },
                    }
                },
            }
        }
        k += 1;
    }
    Ok(())
}

/// Liquidates a portfolio.
///
/// The portfolio is brought up to date at `current_slot`. Then its positions
/// are closed venue after venue, in the order of the registry's indices, each
/// in full at the oracle price of its venue, until equity covers the
/// maintenance margin again (the initial margin, for a liquidation ahead of
/// the breach) or no position is left. A portfolio that covers its margin is
/// left as it is.
///
/// `oracle_prices` holds one entry for every venue of the registry, by index.
/// A liquidation that fails leaves the ledger exactly as it was.
pub fn process_liquidate_user(
    ledger: &mut Ledger,
    portfolio_key: &Pubkey,
    oracle_prices: &Vec<Option<i64>>,
    is_preliq: bool,
    current_slot: u64,
    timestamp: i64,
) -> (result: Result<(), PercolatorError>)
    ensures
        match liquidated(
            old(ledger)@,
            *portfolio_key,
            oracle_prices@,
            is_preliq,
            current_slot,
            timestamp,
        ) {
            Ok(after) => result == Ok::<(), PercolatorError>(()) && final(ledger)@ == after,
            Err(e) => result == Err::<(), PercolatorError>(e) && *final(ledger) == *old(ledger),
        },
        result is Ok && ledger_wf(old(ledger)@, *portfolio_key) ==> ledger_wf(
            final(ledger)@,
            *portfolio_key,
        ) && (!needs_liquidation(final(ledger)@.user, is_preliq) || forall|j: int|
            0 <= j < final(ledger)@.registry.slabs.len() ==> !has_position(
                final(ledger)@.positions,
                *portfolio_key,
                #[trigger] (j as u16),
                INSTRUMENT_INDEX,
            )),
{
    proof {
        if ledger_wf(old(ledger)@, *portfolio_key) {
            lemma_liquidation_is_complete(
                old(ledger)@,
                *portfolio_key,
                oracle_prices@,
                is_preliq,
                current_slot,
                timestamp,
            );
        }
    }
    if ledger.registry.slabs.len() > MAX_SLABS {
        return Err(PercolatorError::InvalidAccount);
    }
    if oracle_prices.len() != ledger.registry.slabs.len() {
        return Err(PercolatorError::InvalidInstruction);
    }
    let mut work: Ledger = ledger.snapshot();
    let haircut = work.registry.global_haircut;
    let params = work.registry.pnl_vesting_params;
    on_user_touch(&mut work.user, &haircut, &params, current_slot);
    match liquidate_in_place(&mut work, portfolio_key, oracle_prices, is_preliq, timestamp) {
        Ok(_) => {
            *ledger = work;
            Ok(())
        },
        Err(e) => Err(e),
    }
}

/// Closing a position in a liquidation keeps the ledger in order and leaves
/// no record on the venue.
pub proof fn lemma_position_liquidated(
    ledger: LedgerView,
    portfolio: Pubkey,
    slab_idx: u16,
    price: i64,
    timestamp: i64,
    other: u16,
)
    requires
        ledger_wf(ledger, portfolio),
        has_position(ledger.positions, portfolio, slab_idx, INSTRUMENT_INDEX),
    ensures
        position_liquidated(ledger, portfolio, slab_idx, price, timestamp) matches Ok(after) ==> {
            &&& ledger_wf(after, portfolio)
            &&& !has_position(after.positions, portfolio, slab_idx, INSTRUMENT_INDEX)
            &&& !has_position(ledger.positions, portfolio, other, INSTRUMENT_INDEX)
                ==> !has_position(after.positions, portfolio, other, INSTRUMENT_INDEX)
            &&& after.registry.slabs == ledger.registry.slabs
        },
{
    let outcome = position_liquidated(ledger, portfolio, slab_idx, price, timestamp);
    if outcome is Ok {
        let after = outcome->Ok_0;
        let at = position_index(ledger.positions, portfolio, slab_idx, INSTRUMENT_INDEX);
        assert(is_first_position(ledger.positions, portfolio, slab_idx, INSTRUMENT_INDEX, at));
        let record = ledger.positions[at];
        let moved = margin_moved(ledger.dlp, ledger.user, record.margin_held)->Ok_0;
        assert(moved.1.exposures == ledger.user.exposures);
        assert(after.positions == ledger.positions.remove(at));
        assert(after.user.exposures == exposures_updated(
            ledger.user.exposures,
            slab_idx,
            INSTRUMENT_INDEX,
            0,
        ));
        lemma_exposures_updated(
            ledger.user.exposures,
            slab_idx,
            INSTRUMENT_INDEX,
            0,
            slab_idx,
            INSTRUMENT_INDEX,
        );
        lemma_removed_position_is_gone(ledger.positions, portfolio, slab_idx, INSTRUMENT_INDEX);
        lemma_book_after_remove_own(ledger.positions, at);
        if other != slab_idx {
            lemma_book_after_remove(ledger.positions, at, portfolio, other, INSTRUMENT_INDEX);
        }
        assert forall|i: int| 0 <= i < after.positions.len() implies (
        #[trigger] after.positions[i]).total_qty != 0 && after.positions[i].margin_held > 0 by {
            let src = if i < at {
                i
            } else {
                i + 1
            };
            assert(after.positions[i] == ledger.positions[src]);
        }
        assert forall|s: u16| #[trigger]
            exposure_of(after.user.exposures, s, INSTRUMENT_INDEX) == held_quantity(
                after.positions,
                portfolio,
                s,
            ) by {
            lemma_exposures_updated(
                ledger.user.exposures,
                slab_idx,
                INSTRUMENT_INDEX,
                0,
                s,
                INSTRUMENT_INDEX,
            );
            assert(exposure_of(ledger.user.exposures, s, INSTRUMENT_INDEX) == held_quantity(
                ledger.positions,
                portfolio,
                s,
            ));
            if s != slab_idx {
                lemma_book_after_remove(ledger.positions, at, portfolio, s, INSTRUMENT_INDEX);
            }
        }
    }
}

/// A liquidation keeps the ledger in order, and it ends only when the
/// portfolio covers its margin again or no position is left on any of the
/// venues gone through.
pub proof fn lemma_liquidation_runs_to_the_end(
    ledger: LedgerView,
    portfolio: Pubkey,
    oracle_prices: Seq<Option<i64>>,
    is_preliq: bool,
    timestamp: i64,
    k: int,
)
    requires
        ledger_wf(ledger, portfolio),
        0 <= k <= 0x1_0000,
    ensures
        liquidated_upto(ledger, portfolio, oracle_prices, is_preliq, timestamp, k) matches Ok(
            after,
        ) ==> {
            &&& ledger_wf(after, portfolio)
            &&& after.registry.slabs == ledger.registry.slabs
            &&& !needs_liquidation(after.user, is_preliq) || forall|j: int|
                0 <= j < k ==> !has_position(
                    after.positions,
                    portfolio,
                    #[trigger] (j as u16),
                    INSTRUMENT_INDEX,
                )
        },
    decreases k,
{
    if k > 0 {
        lemma_liquidation_runs_to_the_end(
            ledger,
            portfolio,
            oracle_prices,
            is_preliq,
            timestamp,
            k - 1,
        );
        match liquidated_upto(ledger, portfolio, oracle_prices, is_preliq, timestamp, k - 1) {
            Ok(before) => {
                let slab_idx = (k - 1) as u16;
                if needs_liquidation(before.user, is_preliq) && has_position(
                    before.positions,
                    portfolio,
                    slab_idx,
                    INSTRUMENT_INDEX,
                ) {
                    match oracle_prices[k - 1] {
                        Some(price) => {
                            let outcome = position_liquidated(
                                before,
                                portfolio,
                                slab_idx,
                                price,
                                timestamp,
                            );
                            lemma_position_liquidated(
                                before,
                                portfolio,
                                slab_idx,
                                price,
                                timestamp,
                                slab_idx,
                            );
                            if outcome is Ok {
                                let after = outcome->Ok_0;
                                assert forall|j: int| 0 <= j < k implies !has_position(
                                    after.positions,
                                    portfolio,
                                    #[trigger] (j as u16),
                                    INSTRUMENT_INDEX,
                                ) by {
                                    lemma_position_liquidated(
                                        before,
                                        portfolio,
                                        slab_idx,
                                        price,
                                        timestamp,
                                        j as u16,
                                    );
                                }
                            }
                        },
                        None => {},
                    }
                }
            },
            Err(_) => {},
        }
    }
}

/// A liquidation keeps the ledger in order, and it ends only when the
/// portfolio covers its margin again or no position is left on any venue of
/// the registry.
pub proof fn lemma_liquidation_is_complete(
    ledger: LedgerView,
    portfolio: Pubkey,
    oracle_prices: Seq<Option<i64>>,
    is_preliq: bool,
    current_slot: u64,
    timestamp: i64,
)
    requires
        ledger_wf(ledger, portfolio),
    ensures
        liquidated(ledger, portfolio, oracle_prices, is_preliq, current_slot, timestamp)
            matches Ok(after) ==> {
            &&& ledger_wf(after, portfolio)
            &&& !needs_liquidation(after.user, is_preliq) || forall|j: int|
                0 <= j < after.registry.slabs.len() ==> !has_position(
                    after.positions,
                    portfolio,
                    #[trigger] (j as u16),
                    INSTRUMENT_INDEX,
                )
        },
{
    if ledger.registry.slabs.len() <= MAX_SLABS && oracle_prices.len()
        == ledger.registry.slabs.len() {
        lemma_liquidation_runs_to_the_end(
            LedgerView {
                user: touched(
                    ledger.user,
                    ledger.registry.global_haircut,
                    ledger.registry.pnl_vesting_params,
                    current_slot,
                ),
                ..ledger
            },
            portfolio,
            oracle_prices,
            is_preliq,
            timestamp,
            oracle_prices.len() as int,
        );
    }
}

} // verus!
