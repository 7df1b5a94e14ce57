//! A whole trade, from the request to the accepted ledger.
//!
//! The trade is checked, every split is priced against its oracle before any
//! venue is called, every venue fills its split behind the sequence fence, and
//! the fills are settled. The trade is all or nothing: when any step refuses,
//! neither the ledger nor any venue has changed.

use crate::error::PercolatorError;
use crate::pda::{address_verdict, verify_derived_address};
use crate::pricing::{resolve_execution_price, resolved_price, ORDER_TYPE_LIMIT};
use crate::pubkey::pubkey_eq;
use crate::settlement::{
    fills_settled, settle_in_place, Ledger, LedgerView, SettledSplit, SlabSplit, MAX_SPLITS,
};
use crate::settlement_laws::{
    ledger_wf, lemma_settled_trade_covers_margin, lemma_settlement_keeps_ledger_wf,
};
use crate::slab::{
    cache_after_fill, fill_receipt, fill_refusal, process_commit_fill, FillReceipt, OrderType,
    Side, SlabHeader, SlabState,
};
use crate::vesting::{on_user_touch, touched};
use pinocchio::pubkey::Pubkey;
use vstd::prelude::*;

verus! {

/// A venue as the router sees it during a trade.
#[derive(Clone, Copy, Debug, PartialEq, Eq)]
pub struct Venue {
    /// State of the venue.
    pub slab: SlabState,
    /// Receipt that the venue writes its fill to.
    pub receipt: FillReceipt,
    /// Price feed of the venue.
    pub oracle_id: Pubkey,
    /// Bump seed for a position record created on the venue.
    pub position_bump: u8,
}

/// The execution prices of the first `n` splits: for each, the oracle has to
/// offer a price, and the order's price is resolved against it. The first
/// split that fails decides the error.
pub open spec fn prices_resolved(
    splits: Seq<SlabSplit>,
    oracle_prices: Seq<Option<i64>>,
    order_type: u8,
    n: int,
) -> Result<Seq<i64>, PercolatorError>
    decreases n,
{
    if n <= 0 {
        Ok(Seq::empty())
    } else {
        match prices_resolved(splits, oracle_prices, order_type, n - 1) {
            Err(e) => Err(e),
            Ok(prices) => match oracle_prices[n - 1] {
                None => Err(PercolatorError::InvalidOracle),
                Some(oracle_px) => match resolved_price(
                    order_type,
                    splits[n - 1].limit_px,
                    oracle_px,
                ) {
                    Err(e) => Err(e),
                    Ok(px) => Ok(prices.push(px)),
                },
            },
        }
    }
}

/// Why a venue refuses the request made of a split, if it does. The fence of
/// the request is the sequence number read from the venue right before.
pub open spec fn request_refusal(venue: Venue, authority: Pubkey, split: SlabSplit, price: i64)
    -> Option<PercolatorError> {
    if split.side > 1 {
        Some(PercolatorError::InvalidSide)
    } else {
        fill_refusal(venue.slab.header, authority, venue.slab.header.seqno, split.qty, price)
    }
}

/// Why one of the first `n` venues refuses, if one does: the first refusal
/// in the order of the splits.
pub open spec fn requests_refused(
    venues: Seq<Venue>,
    authority: Pubkey,
    splits: Seq<SlabSplit>,
    prices: Seq<i64>,
    n: int,
) -> Option<PercolatorError>
    decreases n,
{
    if n <= 0 {
        None
    } else {
        match requests_refused(venues, authority, splits, prices, n - 1) {
            Some(e) => Some(e),
            None => request_refusal(venues[n - 1], authority, splits[n - 1], prices[n - 1]),
        }
    }
}

/// A split together with the receipt that its venue writes for it.
pub open spec fn settled_split(venue: Venue, split: SlabSplit, price: i64) -> SettledSplit {
    SettledSplit {
        split,
        oracle_id: venue.oracle_id,
        position_bump: venue.position_bump,
        receipt: fill_receipt(venue.slab.header, split.qty, price),
    }
}

/// The splits of a trade together with the receipts of their venues.
pub open spec fn settled_splits(venues: Seq<Venue>, splits: Seq<SlabSplit>, prices: Seq<i64>) -> Seq<
    SettledSplit,
> {
    Seq::new(splits.len(), |i: int| settled_split(venues[i], splits[i], prices[i]))
}

/// Tells whether `after` is the venue `before` once it has filled the split:
/// the receipt is written, the sequence number has moved on by one, and the
/// quote cache records the fill.
pub open spec fn venue_filled(before: Venue, after: Venue, split: SlabSplit, price: i64) -> bool {
    &&& after.oracle_id == before.oracle_id
    &&& after.position_bump == before.position_bump
    &&& after.receipt == fill_receipt(before.slab.header, split.qty, price)
    &&& after.slab.header == (SlabHeader {
        seqno: (before.slab.header.seqno + 1) as u32,
        ..before.slab.header
    })
    &&& after.slab.quote_cache.seqno_snapshot == before.slab.header.seqno + 1
    &&& Side::spec_from_u8(split.side) matches Ok(side) && after.slab.quote_cache.best_bids@
        == cache_after_fill(side, price, split.qty).0 && after.slab.quote_cache.best_asks@
        == cache_after_fill(side, price, split.qty).1
}

/// Why a trade request is refused before anything is priced, if it is: the
/// portfolio has to belong to the caller; the trade has one to eight splits,
/// with one venue and one oracle price for each; the order type is market or
/// limit; and the router's authority has to stand at the address derived for
/// it.
pub open spec fn trade_request_refusal(
    owner: Pubkey,
    user: Pubkey,
    split_count: nat,
    venue_count: nat,
    oracle_count: nat,
    order_type: u8,
    authority: Pubkey,
    derived_authority: Option<(Pubkey, u8)>,
) -> Option<PercolatorError> {
    if owner@ != user@ {
        Some(PercolatorError::InvalidPortfolio)
    } else if split_count == 0 || split_count > MAX_SPLITS || venue_count != split_count
        || oracle_count != split_count {
        Some(PercolatorError::InvalidInstruction)
    } else if order_type > ORDER_TYPE_LIMIT {
        Some(PercolatorError::InvalidOrderType)
    } else if address_verdict(authority, derived_authority) is Err {
        Some(PercolatorError::InvalidAccount)
    } else {
        None
    }
}

/// The ledger after a whole trade, or the reason why the trade is refused.
/// The checks come in this order: the portfolio has to belong to the caller;
/// the trade has one to eight splits, with one venue and one oracle price for
/// each; the order type is market or limit; the router's authority stands at
/// its derived address; every split gets its execution price; every venue
/// accepts its request; the fills settle.
pub open spec fn trade_executed(
    ledger: LedgerView,
    portfolio_key: Pubkey,
    user: Pubkey,
    authority: Pubkey,
    derived_authority: Option<(Pubkey, u8)>,
    venues: Seq<Venue>,
    oracle_prices: Seq<Option<i64>>,
    splits: Seq<SlabSplit>,
    order_type: u8,
    leverage: u8,
    current_slot: u64,
    timestamp: i64,
) -> Result<LedgerView, PercolatorError> {
    match trade_request_refusal(
        ledger.user.user,
        user,
        splits.len(),
        venues.len(),
        oracle_prices.len(),
        order_type,
        authority,
        derived_authority,
    ) {
        Some(e) => Err(e),
        None => match prices_resolved(splits, oracle_prices, order_type, splits.len() as int) {
            Err(e) => Err(e),
            Ok(prices) => match requests_refused(
                venues,
                authority,
                splits,
                prices,
                splits.len() as int,
            ) {
                Some(e) => Err(e),
                None => fills_settled(
                    LedgerView {
                        user: touched(
                            ledger.user,
                            ledger.registry.global_haircut,
                            ledger.registry.pnl_vesting_params,
                            current_slot,
                        ),
                        ..ledger
                    },
                    portfolio_key,
                    settled_splits(venues, splits, prices),
                    leverage,
                    timestamp,
                ),
            },
        },
    }
}

/// Once a price fails to resolve, every longer run of splits fails the same way.
pub proof fn lemma_prices_refused(
    splits: Seq<SlabSplit>,
    oracle_prices: Seq<Option<i64>>,
    order_type: u8,
    n: int,
    m: int,
)
    requires
        0 <= n <= m,
        prices_resolved(splits, oracle_prices, order_type, n) is Err,
    ensures
        prices_resolved(splits, oracle_prices, order_type, m) == prices_resolved(
            splits,
            oracle_prices,
            order_type,
            n,
        ),
    decreases m - n,
{
    if n < m {
        lemma_prices_refused(splits, oracle_prices, order_type, n, m - 1);
    }
}

/// Once a venue refuses, every longer run of requests is refused the same way.
pub proof fn lemma_requests_refused(
    venues: Seq<Venue>,
    authority: Pubkey,
    splits: Seq<SlabSplit>,
    prices: Seq<i64>,
    n: int,
    m: int,
)
    requires
        0 <= n <= m,
        requests_refused(venues, authority, splits, prices, n) is Some,
    ensures
        requests_refused(venues, authority, splits, prices, m) == requests_refused(
            venues,
            authority,
            splits,
            prices,
            n,
        ),
    decreases m - n,
{
    if n < m {
        lemma_requests_refused(venues, authority, splits, prices, n, m - 1);
    }
}

/// Checks a trade request before anything is priced, and hands on its order
/// type and the bump seed of the router's authority.
pub fn check_trade_request(
    owner: &Pubkey,
    user: &Pubkey,
    split_count: usize,
    venue_count: usize,
    oracle_count: usize,
    order_type: u8,
    authority: &Pubkey,
    derived_authority: Option<(Pubkey, u8)>,
) -> (result: Result<(OrderType, u8), PercolatorError>)
    ensures
        match trade_request_refusal(
            *owner,
            *user,
            split_count as nat,
            venue_count as nat,
            oracle_count as nat,
            order_type,
            *authority,
            derived_authority,
        ) {
            Some(e) => result == Err::<(OrderType, u8), PercolatorError>(e),
            None => result is Ok && OrderType::spec_from_u8(order_type) == Ok::<
                OrderType,
                PercolatorError,
            >(result->Ok_0.0) && address_verdict(*authority, derived_authority) == Ok::<
                u8,
                PercolatorError,
            >(result->Ok_0.1),
        },
{
    if !pubkey_eq(owner, user) {
        return Err(PercolatorError::InvalidPortfolio);
    }
    if split_count == 0 || split_count > MAX_SPLITS || venue_count != split_count || oracle_count
        != split_count {
        return Err(PercolatorError::InvalidInstruction);
    }
    let order_kind: OrderType = match OrderType::from_u8(order_type) {
        Ok(kind) => kind,
        Err(e) => {
            return Err(e);
        },
    };
    match verify_derived_address(authority, derived_authority) {
        Ok(bump) => Ok((order_kind, bump)),
        Err(e) => Err(e),
    }
}

/// Resolves the execution price of every split against its oracle price,
/// before any venue is called. A split whose oracle has no price, or whose
/// limit price lies outside the sanity band, fails the whole trade.
pub fn resolve_split_prices(
    splits: &Vec<SlabSplit>,
    oracle_prices: &Vec<Option<i64>>,
    order_type: u8,
) -> (result: Result<Vec<i64>, PercolatorError>)
    requires
        oracle_prices@.len() == splits@.len(),
    ensures
        match prices_resolved(splits@, oracle_prices@, order_type, splits@.len() as int) {
            Ok(prices) => result is Ok && result->Ok_0@ == prices && prices.len() == splits@.len(),
            Err(e) => result == Err::<Vec<i64>, PercolatorError>(e),
        },
{
    let mut prices: Vec<i64> = Vec::new();
    let mut i: usize = 0;
    while i < splits.len()
        invariant
            i <= splits.len(),
            oracle_prices@.len() == splits@.len(),
            prices@.len() == i,
            prices_resolved(splits@, oracle_prices@, order_type, i as int) == Ok::<
                Seq<i64>,
                PercolatorError,
            >(prices@),
        decreases splits.len() - i,
    {
        let oracle_px: i64 = match oracle_prices[i] {
            Some(px) => px,
            None => {
                proof {
                    assert(prices_resolved(splits@, oracle_prices@, order_type, i as int + 1) is Err);
                    lemma_prices_refused(
                        splits@,
                        oracle_prices@,
                        order_type,
                        i as int + 1,
                        splits@.len() as int,
                    );
                }
                return Err(PercolatorError::InvalidOracle);
            },
        };
        match resolve_execution_price(order_type, splits[i].limit_px, oracle_px) {
            Ok(px) => {
                prices.push(px);
            },
            Err(e) => {
                proof {
                    assert(prices_resolved(splits@, oracle_prices@, order_type, i as int + 1) is Err);
                    lemma_prices_refused(
                        splits@,
                        oracle_prices@,
                        order_type,
                        i as int + 1,
                        splits@.len() as int,
                    );
                }
                return Err(e);
            },
        }
        i += 1;
    }
    Ok(prices)
}

/// Copies the venues, so that a trade can work on the copy.
fn copy_venues(venues: &Vec<Venue>) -> (copy: Vec<Venue>)
    ensures
        copy@ == venues@,
{
    let mut copy: Vec<Venue> = Vec::new();
    let mut i: usize = 0;
    while i < venues.len()
        invariant
            i <= venues.len(),
            copy@ == venues@.take(i as int),
        decreases venues.len() - i,
    {
        copy.push(venues[i]);
        assert(venues@.take(i as int).push(venues@[i as int]) =~= venues@.take(i + 1));
        i += 1;
    }
    assert(venues@.take(i as int) =~= venues@);
    copy
}

/// Has every venue fill its split, on the working copy of the venues, and
/// collects the receipts.
fn fill_on_venues(
    venues: &mut Vec<Venue>,
    authority: &Pubkey,
    splits: &Vec<SlabSplit>,
    prices: &Vec<i64>,
    order_type: OrderType,
) -> (result: Result<Vec<SettledSplit>, PercolatorError>)
    requires
        old(venues)@.len() == splits@.len(),
        prices@.len() == splits@.len(),
    ensures
        match requests_refused(old(venues)@, *authority, splits@, prices@, splits@.len() as int) {
            Some(e) => result == Err::<Vec<SettledSplit>, PercolatorError>(e),
            None => {
                &&& result is Ok
                &&& result->Ok_0@ == settled_splits(old(venues)@, splits@, prices@)
                &&& final(venues)@.len() == old(venues)@.len()
                &&& forall|j: int|
                    0 <= j < splits@.len() ==> venue_filled(
                        old(venues)@[j],
                        #[trigger] final(venues)@[j],
                        splits@[j],
                        prices@[j],
                    )
            },
        },
{
    let mut settled: Vec<SettledSplit> = Vec::new();
    let mut i: usize = 0;
    while i < splits.len()
        invariant
            i <= splits.len(),
            venues@.len() == splits@.len(),
            old(venues)@.len() == splits@.len(),
            prices@.len() == splits@.len(),
            settled@.len() == i,
            requests_refused(old(venues)@, *authority, splits@, prices@, i as int) is None,
            forall|j: int|
                0 <= j < i ==> #[trigger] settled@[j] == settled_split(
                    old(venues)@[j],
                    splits@[j],
                    prices@[j],
                ),
            forall|j: int|
                0 <= j < i ==> venue_filled(
                    old(venues)@[j],
                    #[trigger] venues@[j],
                    splits@[j],
                    prices@[j],
                ),
            forall|j: int| i <= j < splits@.len() ==> #[trigger] venues@[j] == old(venues)@[j],
        decreases splits.len() - i,
    {
        let split: SlabSplit = splits[i];
        let side: Side = match Side::from_u8(split.side) {
            Ok(side) => side,
            Err(e) => {
                proof {
                    assert(requests_refused(
                        old(venues)@,
                        *authority,
                        splits@,
                        prices@,
                        i as int + 1,
                    ) == Some(e));
                    lemma_requests_refused(
                        old(venues)@,
                        *authority,
                        splits@,
                        prices@,
                        i as int + 1,
                        splits@.len() as int,
                    );
                }
                return Err(e);
            },
        };
        let mut venue: Venue = venues[i];
        let fence: u32 = venue.slab.header.seqno;
        match process_commit_fill(
            &mut venue.slab,
            &mut venue.receipt,
            authority,
            fence,
            order_type,
            side,
            split.qty,
            prices[i],
        ) {
            Ok(_) => {},
            Err(e) => {
                proof {
                    assert(requests_refused(
                        old(venues)@,
                        *authority,
                        splits@,
                        prices@,
                        i as int + 1,
                    ) == Some(e));
                    lemma_requests_refused(
                        old(venues)@,
                        *authority,
                        splits@,
                        prices@,
                        i as int + 1,
                        splits@.len() as int,
                    );
                }
                return Err(e);
            },
        }
        settled.push(
            SettledSplit {
                split,
                oracle_id: venue.oracle_id,
                position_bump: venue.position_bump,
                receipt: venue.receipt,
            },
        );
        venues[i] = venue;
        i += 1;
    }
    assert(settled@ =~= settled_splits(old(venues)@, splits@, prices@));
    Ok(settled)
}

/// A trade that is accepted leaves equity at or above the maintenance margin.
pub proof fn lemma_trade_covers_margin(
    ledger: LedgerView,
    portfolio_key: Pubkey,
    user: Pubkey,
    authority: Pubkey,
    derived_authority: Option<(Pubkey, u8)>,
    venues: Seq<Venue>,
    oracle_prices: Seq<Option<i64>>,
    splits: Seq<SlabSplit>,
    order_type: u8,
    leverage: u8,
    current_slot: u64,
    timestamp: i64,
)
    ensures
        trade_executed(
            ledger,
            portfolio_key,
            user,
            authority,
            derived_authority,
            venues,
            oracle_prices,
            splits,
            order_type,
            leverage,
            current_slot,
            timestamp,
        ) matches Ok(after) ==> after.user.equity >= after.user.mm,
{
    if trade_request_refusal(
        ledger.user.user,
        user,
        splits.len(),
        venues.len(),
        oracle_prices.len(),
        order_type,
        authority,
        derived_authority,
    ) is None {
        match prices_resolved(splits, oracle_prices, order_type, splits.len() as int) {
            Ok(prices) => {
                lemma_settled_trade_covers_margin(
                    LedgerView {
                        user: touched(
                            ledger.user,
                            ledger.registry.global_haircut,
                            ledger.registry.pnl_vesting_params,
                            current_slot,
                        ),
                        ..ledger
                    },
                    portfolio_key,
                    settled_splits(venues, splits, prices),
                    leverage,
                    timestamp,
                );
            },
            Err(_) => {},
        }
    }
}

/// A trade that is accepted keeps the ledger in order.
pub proof fn lemma_trade_keeps_ledger_wf(
    ledger: LedgerView,
    portfolio_key: Pubkey,
    user: Pubkey,
    authority: Pubkey,
    derived_authority: Option<(Pubkey, u8)>,
    venues: Seq<Venue>,
    oracle_prices: Seq<Option<i64>>,
    splits: Seq<SlabSplit>,
    order_type: u8,
    leverage: u8,
    current_slot: u64,
    timestamp: i64,
)
    requires
        ledger_wf(ledger, portfolio_key),
    ensures
        trade_executed(
            ledger,
            portfolio_key,
            user,
            authority,
            derived_authority,
            venues,
            oracle_prices,
            splits,
            order_type,
            leverage,
            current_slot,
            timestamp,
        ) matches Ok(after) ==> ledger_wf(after, portfolio_key),
{
    if trade_request_refusal(
        ledger.user.user,
        user,
        splits.len(),
        venues.len(),
        oracle_prices.len(),
        order_type,
        authority,
        derived_authority,
    ) is None {
        match prices_resolved(splits, oracle_prices, order_type, splits.len() as int) {
            Ok(prices) => {
                lemma_settlement_keeps_ledger_wf(
                    LedgerView {
                        user: touched(
                            ledger.user,
                            ledger.registry.global_haircut,
                            ledger.registry.pnl_vesting_params,
                            current_slot,
                        ),
                        ..ledger
                    },
                    portfolio_key,
                    settled_splits(venues, splits, prices),
                    leverage,
                    timestamp,
                );
            },
            Err(_) => {},
        }
    }
}

/// Executes a trade that is split over one to eight venues.
///
/// The portfolio has to belong to `user`, and `router_authority` has to be
/// the address in `derived_authority`, the answer of the derivation of the
/// router's authority. Every split is priced first: a
/// market order executes at its oracle price, a limit order at its limit
/// price, which has to lie within the sanity band of the oracle price. Then
/// every venue is asked to fill its split, with the venue's sequence number
/// as the fence and `router_authority` as the signer. Then the portfolio is
/// brought up to date at `current_slot`, and the fills are settled.
///
/// The trade is all or nothing. When it is refused, the ledger and every
/// venue are exactly as they were before the call. When it is accepted, the
/// ledger is the settled one and every venue has filled its split.
pub fn process_execute_cross_slab(
    ledger: &mut Ledger,
    user_portfolio_key: &Pubkey,
    user: &Pubkey,
    router_authority: &Pubkey,
    derived_authority: Option<(Pubkey, u8)>,
    venues: &mut Vec<Venue>,
    oracle_prices: &Vec<Option<i64>>,
    splits: &Vec<SlabSplit>,
    order_type: u8,
    leverage: u8,
    current_slot: u64,
    timestamp: i64,
) -> (result: Result<(), PercolatorError>)
    ensures
        match trade_executed(
            old(ledger)@,
            *user_portfolio_key,
            *user,
            *router_authority,
            derived_authority,
            old(venues)@,
            oracle_prices@,
            splits@,
            order_type,
            leverage,
            current_slot,
            timestamp,
        ) {
            Ok(after) => {
                &&& result == Ok::<(), PercolatorError>(())
                &&& final(ledger)@ == after
                &&& final(venues)@.len() == old(venues)@.len()
                &&& prices_resolved(splits@, oracle_prices@, order_type, splits@.len() as int)
                    matches Ok(prices) && forall|j: int|
                    0 <= j < splits@.len() ==> venue_filled(
                        old(venues)@[j],
                        #[trigger] final(venues)@[j],
                        splits@[j],
                        prices[j],
                    )
            },
            Err(e) => {
                &&& result == Err::<(), PercolatorError>(e)
                &&& *final(ledger) == *old(ledger)
                &&& *final(venues) == *old(venues)
            },
        },
        result is Ok ==> final(ledger)@.user.equity >= final(ledger)@.user.mm,
        result is Ok && ledger_wf(old(ledger)@, *user_portfolio_key) ==> ledger_wf(
            final(ledger)@,
            *user_portfolio_key,
        ),
{
    proof {
        if ledger_wf(old(ledger)@, *user_portfolio_key) {
            lemma_trade_keeps_ledger_wf(
                old(ledger)@,
                *user_portfolio_key,
                *user,
                *router_authority,
                derived_authority,
                old(venues)@,
                oracle_prices@,
                splits@,
                order_type,
                leverage,
                current_slot,
                timestamp,
            );
        }
        lemma_trade_covers_margin(
            old(ledger)@,
            *user_portfolio_key,
            *user,
            *router_authority,
            derived_authority,
            old(venues)@,
            oracle_prices@,
            splits@,
            order_type,
            leverage,
            current_slot,
            timestamp,
        );
    }
    let order_kind: OrderType = match check_trade_request(
        &ledger.user.user,
        user,
        splits.len(),
        venues.len(),
        oracle_prices.len(),
        order_type,
        router_authority,
        derived_authority,
    ) {
        Ok(checked) => checked.0,
        Err(e) => {
            return Err(e);
        },
    };
    let prices: Vec<i64> = match resolve_split_prices(splits, oracle_prices, order_type) {
        Ok(prices) => prices,
        Err(e) => {
            return Err(e);
        },
    };
    let mut work_venues: Vec<Venue> = copy_venues(venues);
    let settled: Vec<SettledSplit> = match fill_on_venues(
        &mut work_venues,
        router_authority,
        splits,
        &prices,
        order_kind,
    ) {
        Ok(settled) => settled,
        Err(e) => {
            return Err(e);
        },
    };
    let mut work: Ledger = ledger.snapshot();
    let haircut = work.registry.global_haircut;
    let params = work.registry.pnl_vesting_params;
    on_user_touch(&mut work.user, &haircut, &params, current_slot);
    match settle_in_place(&mut work, user_portfolio_key, &settled, leverage, timestamp) {
        Ok(_) => {
            *ledger = work;
            *venues = work_venues;
            Ok(())
        },
        Err(e) => Err(e),
    }
}

} // verus!
