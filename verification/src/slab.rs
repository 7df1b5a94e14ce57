//! The execution venue: one instrument, filled at the price the router hands
//! over, guarded by a sequence number.
//!
//! A fill request carries the sequence number that the caller read. The venue
//! refuses the request when its own number has moved on since, so that a
//! caller never trades on a stale view.

use crate::error::PercolatorError;
use crate::math::{trunc_div, BPS_DENOMINATOR, SCALE};
use crate::pubkey::pubkey_eq;
use pinocchio::pubkey::Pubkey;
use vstd::prelude::*;

verus! {

/// Number of price levels that the quote cache keeps per side.
pub const QUOTE_LEVELS: usize = 4;

/// Side of an order.
#[derive(Clone, Copy, Debug, PartialEq, Eq, Structural)]
pub enum Side {
    Buy,
    Sell,
}

/// Type of an order.
#[derive(Clone, Copy, Debug, PartialEq, Eq, Structural)]
pub enum OrderType {
    /// Executes at the oracle price.
    Market,
    /// Executes at the limit price.
    Limit,
}

impl Side {
    /// The side that a byte of a request stands for.
    pub open spec fn spec_from_u8(byte: u8) -> Result<Side, PercolatorError> {
        if byte == 0 {
            Ok(Side::Buy)
        } else if byte == 1 {
            Ok(Side::Sell)
        } else {
            Err(PercolatorError::InvalidSide)
        }
    }

    /// Reads a side from its byte: 0 is buy, 1 is sell.
    pub fn from_u8(byte: u8) -> (result: Result<Side, PercolatorError>)
        ensures
            result == Side::spec_from_u8(byte),
    {
        if byte == 0 {
            Ok(Side::Buy)
        } else if byte == 1 {
            Ok(Side::Sell)
        } else {
            Err(PercolatorError::InvalidSide)
        }
    }

    /// The byte that stands for the side.
    pub fn to_u8(self) -> (byte: u8)
        ensures
            Side::spec_from_u8(byte) == Ok::<Side, PercolatorError>(self),
    {
        match self {
            Side::Buy => 0,
            Side::Sell => 1,
        }
    }
}

impl OrderType {
    /// The order type that a byte of a request stands for.
    pub open spec fn spec_from_u8(byte: u8) -> Result<OrderType, PercolatorError> {
        if byte == 0 {
            Ok(OrderType::Market)
        } else if byte == 1 {
            Ok(OrderType::Limit)
        } else {
            Err(PercolatorError::InvalidOrderType)
        }
    }

    /// Reads an order type from its byte: 0 is market, 1 is limit.
    pub fn from_u8(byte: u8) -> (result: Result<OrderType, PercolatorError>)
        ensures
            result == OrderType::spec_from_u8(byte),
    {
        if byte == 0 {
            Ok(OrderType::Market)
        } else if byte == 1 {
            Ok(OrderType::Limit)
        } else {
            Err(PercolatorError::InvalidOrderType)
        }
    }

    /// The byte that stands for the order type.
    pub fn to_u8(self) -> (byte: u8)
        ensures
            OrderType::spec_from_u8(byte) == Ok::<OrderType, PercolatorError>(self),
    {
        match self {
            OrderType::Market => 0,
            OrderType::Limit => 1,
        }
    }
}

/// One price level of the quote cache.
#[derive(Clone, Copy, Debug, PartialEq, Eq, Structural)]
pub struct QuoteLevel {
    /// Price, six decimals.
    pub px: i64,
    /// Quantity available at the price, six decimals.
    pub avail_qty: i64,
}

/// The best levels of the book as of one sequence number.
#[derive(Clone, Copy, Debug, PartialEq, Eq)]
pub struct QuoteCache {
    /// Sequence number that the levels belong to.
    pub seqno_snapshot: u32,
    /// Best bids, best first; unused levels are zero.
    pub best_bids: [QuoteLevel; 4],
    /// Best asks, best first; unused levels are zero.
    pub best_asks: [QuoteLevel; 4],
}

/// Header of a venue's state.
#[derive(Clone, Copy, Debug, PartialEq, Eq)]
pub struct SlabHeader {
    /// Sequence number; it moves with every change of the book.
    pub seqno: u32,
    /// Liquidity provider that owns the venue.
    pub lp_owner: Pubkey,
    /// Router that alone may ask for fills.
    pub router_id: Pubkey,
    /// Instrument traded on the venue.
    pub instrument: Pubkey,
    /// Mark price, six decimals.
    pub mark_px: i64,
    /// Taker fee in basis points.
    pub taker_fee_bps: i64,
    /// Contract size, six decimals.
    pub contract_size: i64,
    /// Bump seed of the venue's address.
    pub bump: u8,
}

/// State of a venue.
#[derive(Clone, Copy, Debug, PartialEq, Eq)]
pub struct SlabState {
    pub header: SlabHeader,
    pub quote_cache: QuoteCache,
}

/// What a venue reports of one fill.
#[derive(Clone, Copy, Debug, PartialEq, Eq, Structural)]
pub struct FillReceipt {
    /// Set once the venue has written the receipt, so that a blank or an old
    /// receipt is not read as a fill.
    pub used: bool,
    /// Sequence number of the venue when it filled.
    pub seqno_committed: u32,
    /// Quantity filled, six decimals.
    pub filled_qty: i64,
    /// Volume-weighted price of the fill, six decimals.
    pub vwap_px: i64,
    /// Quantity times price, six decimals.
    pub notional: i64,
    /// Taker fee charged, six decimals.
    pub fee: i64,
}

impl SlabState {
    /// The state of a venue right after its initialization: sequence number
    /// zero and an empty quote cache.
    pub fn new(
        lp_owner: Pubkey,
        router_id: Pubkey,
        instrument: Pubkey,
        mark_px: i64,
        taker_fee_bps: i64,
        contract_size: i64,
        bump: u8,
    ) -> (slab: SlabState)
        ensures
            slab.header == (SlabHeader {
                seqno: 0,
                lp_owner,
                router_id,
                instrument,
                mark_px,
                taker_fee_bps,
                contract_size,
                bump,
            }),
            slab.quote_cache.seqno_snapshot == 0,
            slab.quote_cache.best_bids@ == cached_side(Seq::empty()),
            slab.quote_cache.best_asks@ == cached_side(Seq::empty()),
    {
        SlabState {
            header: SlabHeader {
                seqno: 0,
                lp_owner,
                router_id,
                instrument,
                mark_px,
                taker_fee_bps,
                contract_size,
                bump,
            },
            quote_cache: QuoteCache::new(),
        }
    }
}

impl FillReceipt {
    /// A receipt that no venue has written.
    pub fn new() -> (receipt: FillReceipt)
        ensures
            receipt == (FillReceipt {
                used: false,
                seqno_committed: 0,
                filled_qty: 0,
                vwap_px: 0,
                notional: 0,
                fee: 0,
            }),
    {
        FillReceipt { used: false, seqno_committed: 0, filled_qty: 0, vwap_px: 0, notional: 0, fee: 0 }
    }

    /// Writes the outcome of a fill and marks the receipt as written.
    pub fn write(&mut self, seqno: u32, filled_qty: i64, vwap_px: i64, notional: i64, fee: i64)
        ensures
            *final(self) == (FillReceipt {
                used: true,
                seqno_committed: seqno,
                filled_qty,
                vwap_px,
                notional,
                fee,
            }),
    {
        self.used = true;
        self.seqno_committed = seqno;
        self.filled_qty = filled_qty;
        self.vwap_px = vwap_px;
        self.notional = notional;
        self.fee = fee;
    }

    /// Tells whether a venue has written the receipt.
    pub fn is_used(&self) -> (used: bool)
        ensures
            used == self.used,
    {
        self.used
    }
}

/// The level that stands for an unused slot of the cache.
pub open spec fn empty_level() -> QuoteLevel {
    QuoteLevel { px: 0, avail_qty: 0 }
}

/// One side of the cache after an update: the first levels of `levels`, as
/// many as fit, then empty slots.
pub open spec fn cached_side(levels: Seq<QuoteLevel>) -> Seq<QuoteLevel> {
    Seq::new(
        QUOTE_LEVELS as nat,
        |i: int|
            if i < levels.len() {
                levels[i]
            } else {
                empty_level()
            },
    )
}

/// The cache after a fill of `qty` at `px`: a buy leaves the fill as the only
/// bid, a sell leaves it as the only ask.
pub open spec fn cache_after_fill(side: Side, px: i64, qty: i64) -> (Seq<QuoteLevel>, Seq<QuoteLevel>) {
    let level = QuoteLevel { px, avail_qty: qty };
    match side {
        Side::Buy => (cached_side(seq![level]), cached_side(Seq::empty())),
        Side::Sell => (cached_side(Seq::empty()), cached_side(seq![level])),
    }
}

impl QuoteCache {
    /// An empty cache.
    pub fn new() -> (cache: QuoteCache)
        ensures
            cache.seqno_snapshot == 0,
            cache.best_bids@ == cached_side(Seq::empty()),
            cache.best_asks@ == cached_side(Seq::empty()),
    {
        let zero = QuoteLevel { px: 0, avail_qty: 0 };
        let cache = QuoteCache { seqno_snapshot: 0, best_bids: [zero; 4], best_asks: [zero; 4] };
        assert(cache.best_bids@ =~= cached_side(Seq::empty()));
        assert(cache.best_asks@ =~= cached_side(Seq::empty()));
        cache
    }

    /// Replaces the cached levels by the best of `bids` and `asks` and stamps
    /// the cache with `seqno`.
    pub fn update(&mut self, seqno: u32, bids: &[QuoteLevel], asks: &[QuoteLevel])
        ensures
            final(self).seqno_snapshot == seqno,
            final(self).best_bids@ == cached_side(bids@),
            final(self).best_asks@ == cached_side(asks@),
    {
        let zero = QuoteLevel { px: 0, avail_qty: 0 };
        let mut new_bids: [QuoteLevel; 4] = [zero; 4];
        let mut new_asks: [QuoteLevel; 4] = [zero; 4];
        let mut i: usize = 0;
        while i < QUOTE_LEVELS
            invariant
                i <= QUOTE_LEVELS,
                zero == empty_level(),
                forall|j: int|
                    0 <= j < QUOTE_LEVELS ==> #[trigger] new_bids@[j] == if j < i && j < bids@.len() {
                        bids@[j]
                    } else {
                        empty_level()
                    },
                forall|j: int|
                    0 <= j < QUOTE_LEVELS ==> #[trigger] new_asks@[j] == if j < i && j < asks@.len() {
                        asks@[j]
                    } else {
                        empty_level()
                    },
            decreases QUOTE_LEVELS - i,
        {
            if i < bids.len() {
                new_bids[i] = bids[i];
            }
            if i < asks.len() {
                new_asks[i] = asks[i];
            }
            i += 1;
        }
        assert(new_bids@ =~= cached_side(bids@));
        assert(new_asks@ =~= cached_side(asks@));
        self.seqno_snapshot = seqno;
        self.best_bids = new_bids;
        self.best_asks = new_asks;
    }
}

/// Records a fill in the quote cache: the filled level becomes the only bid
/// after a buy and the only ask after a sell.
pub fn update_quote_cache_after_fill(cache: &mut QuoteCache, seqno: u32, side: Side, px: i64, qty: i64)
    ensures
        final(cache).seqno_snapshot == seqno,
        final(cache).best_bids@ == cache_after_fill(side, px, qty).0,
        final(cache).best_asks@ == cache_after_fill(side, px, qty).1,
{
    let level = [QuoteLevel { px, avail_qty: qty }];
    let none: [QuoteLevel; 0] = [];
    assert(level@ =~= seq![QuoteLevel { px, avail_qty: qty }]);
    assert(none@ =~= Seq::<QuoteLevel>::empty());
    match side {
        Side::Buy => {
            cache.update(seqno, level.as_slice(), none.as_slice());
        },
        Side::Sell => {
            cache.update(seqno, none.as_slice(), level.as_slice());
        },
    }
}

/// Notional of a fill: quantity times price, scaled back to six decimals.
pub open spec fn fill_notional(qty: int, px: int) -> int {
    trunc_div(qty * px, SCALE as int)
}

/// Taker fee on a notional.
pub open spec fn fill_fee(notional: int, taker_fee_bps: int) -> int {
    trunc_div(notional * taker_fee_bps, BPS_DENOMINATOR as int)
}

/// Why the venue refuses a fill request, if it does. The checks are made in
/// this order: authority, sequence fence, quantity, price, then the ranges of
/// the figures that the receipt has to hold.
pub open spec fn fill_refusal(
    header: SlabHeader,
    router_signer: Pubkey,
    expected_seqno: u32,
    qty: i64,
    limit_px: i64,
) -> Option<PercolatorError> {
    if header.router_id@ != router_signer@ {
        Some(PercolatorError::Unauthorized)
    } else if header.seqno != expected_seqno {
        Some(PercolatorError::SeqnoMismatch)
    } else if qty <= 0 {
        Some(PercolatorError::InvalidQuantity)
    } else if limit_px <= 0 {
        Some(PercolatorError::InvalidPrice)
    } else if fill_notional(qty as int, limit_px as int) > i64::MAX {
        Some(PercolatorError::Overflow)
    } else if fill_fee(fill_notional(qty as int, limit_px as int), header.taker_fee_bps as int)
        > i64::MAX || fill_fee(
        fill_notional(qty as int, limit_px as int),
        header.taker_fee_bps as int,
    ) < i64::MIN {
        Some(PercolatorError::Overflow)
    } else if header.seqno == u32::MAX {
        Some(PercolatorError::Overflow)
    } else {
        None
    }
}

/// The receipt of an accepted fill: all of the quantity, at the price handed
/// over, stamped with the sequence number before the fill.
pub open spec fn fill_receipt(header: SlabHeader, qty: i64, limit_px: i64) -> FillReceipt {
    FillReceipt {
        used: true,
        seqno_committed: header.seqno,
        filled_qty: qty,
        vwap_px: limit_px,
        notional: fill_notional(qty as int, limit_px as int) as i64,
        fee: fill_fee(fill_notional(qty as int, limit_px as int), header.taker_fee_bps as int) as i64,
    }
}

/// Fills an order of the router at the price it hands over.
///
/// The request is refused, and neither the venue nor the receipt is touched,
/// when the signer is not the venue's router, when the venue's sequence number
/// differs from `expected_seqno`, when quantity or price is not positive, or
/// when a figure of the receipt would leave its range. Otherwise the whole
/// quantity is filled: the receipt is written, the quote cache records the
/// fill, and the sequence number moves on by one. The order type plays no
/// part in the fill.
pub fn process_commit_fill(
    slab: &mut SlabState,
    receipt: &mut FillReceipt,
    router_signer: &Pubkey,
    expected_seqno: u32,
    _order_type: OrderType,
    side: Side,
    qty: i64,
    limit_px: i64,
) -> (result: Result<(), PercolatorError>)
    ensures
        match fill_refusal(old(slab).header, *router_signer, expected_seqno, qty, limit_px) {
            Some(e) => {
                &&& result == Err::<(), PercolatorError>(e)
                &&& *final(slab) == *old(slab)
                &&& *final(receipt) == *old(receipt)
            },
            None => {
                &&& result == Ok::<(), PercolatorError>(())
                &&& *final(receipt) == fill_receipt(old(slab).header, qty, limit_px)
                &&& final(slab).header == (SlabHeader {
                    seqno: (old(slab).header.seqno + 1) as u32,
                    ..old(slab).header
                })
                &&& final(slab).quote_cache.seqno_snapshot == old(slab).header.seqno + 1
                &&& final(slab).quote_cache.best_bids@ == cache_after_fill(side, limit_px, qty).0
                &&& final(slab).quote_cache.best_asks@ == cache_after_fill(side, limit_px, qty).1
            },
        },
        expected_seqno != old(slab).header.seqno ==> result is Err && *final(slab) == *old(slab)
            && *final(receipt) == *old(receipt),
{
    if !pubkey_eq(&slab.header.router_id, router_signer) {
        return Err(PercolatorError::Unauthorized);
    }
    if slab.header.seqno != expected_seqno {
        return Err(PercolatorError::SeqnoMismatch);
    }
    if qty <= 0 {
        return Err(PercolatorError::InvalidQuantity);
    }
    if limit_px <= 0 {
        return Err(PercolatorError::InvalidPrice);
    }
    let seqno_start: u32 = slab.header.seqno;
    assert(0 <= (qty as int) * (limit_px as int) <= 0x4000_0000_0000_0000_0000_0000_0000_0000)
        by (nonlinear_arith)
        requires
            0 < qty < 0x8000_0000_0000_0000,
            0 < limit_px < 0x8000_0000_0000_0000,
    ;
    let notional_wide: i128 = (qty as i128) * (limit_px as i128) / SCALE;
    if notional_wide > i64::MAX as i128 {
        return Err(PercolatorError::Overflow);
    }
    let notional: i64 = notional_wide as i64;
    assert(-0x4000_0000_0000_0000_0000_0000_0000_0000 <= (notional as int) * (
    slab.header.taker_fee_bps as int) <= 0x4000_0000_0000_0000_0000_0000_0000_0000)
        by (nonlinear_arith)
        requires
            0 <= notional < 0x8000_0000_0000_0000,
            -0x8000_0000_0000_0000 <= slab.header.taker_fee_bps < 0x8000_0000_0000_0000,
    ;
    let fee_wide: i128 = (notional as i128) * (slab.header.taker_fee_bps as i128) / BPS_DENOMINATOR;
    if fee_wide > i64::MAX as i128 || fee_wide < i64::MIN as i128 {
        return Err(PercolatorError::Overflow);
    }
    let fee: i64 = fee_wide as i64;
    if seqno_start == u32::MAX {
        return Err(PercolatorError::Overflow);
    }
    update_quote_cache_after_fill(&mut slab.quote_cache, seqno_start + 1, side, limit_px, qty);
    receipt.write(seqno_start, qty, limit_px, notional, fee);
    slab.header.seqno = seqno_start + 1;
    Ok(())
}

} // verus!
