//! The position record: cost basis, realized profit and committed margin of
//! one trader on one instrument of one venue.
//!
//! A record is created by the first fill that opens exposure, updated by every
//! later fill, and released when its quantity returns to zero.

use crate::math::{
    abs_i64, clamp_i128, clamp_u128, min_u64, mul_i64_u64, saturating_add_i128, spec_abs,
    trunc_div, SCALE,
};
use pinocchio::pubkey::Pubkey;
use vstd::prelude::*;

verus! {

/// Size in bytes of a persisted position record.
pub const POSITION_DETAILS_SIZE: usize = 144;

/// The tag `BARTPOSN`, read as a little-endian integer, that marks a valid record.
pub const POSITION_DETAILS_MAGIC: u64 = 0x4E53_4F50_5452_4142;

/// Cost basis and margin of a single position.
#[derive(Clone, Copy, Debug, PartialEq, Eq)]
pub struct PositionDetails {
    /// Tag that tells a written record from blank or foreign bytes.
    pub magic: u64,
    /// Portfolio that owns the position.
    pub portfolio: Pubkey,
    /// Index of the venue in the registry.
    pub slab_index: u16,
    /// Index of the instrument on the venue.
    pub instrument_index: u16,
    /// Bump seed of the record's address.
    pub bump: u8,
    /// Volume-weighted average entry price, six decimals.
    pub avg_entry_price: i64,
    /// Signed quantity, six decimals: positive is long, negative is short.
    pub total_qty: i64,
    /// Realized profit and loss accumulated over all reductions, six decimals.
    pub realized_pnl: i128,
    /// Fees paid over all fills, six decimals.
    pub total_fees: i128,
    /// Number of fills applied.
    pub trade_count: u32,
    /// Time of the last fill.
    pub last_update_ts: i64,
    /// Collateral committed against the position.
    pub margin_held: u128,
    /// Leverage chosen when the position was opened.
    pub leverage: u8,
}

/// A fill adds to a position when the position is flat or points the same way.
pub open spec fn same_direction(held: int, fill: int) -> bool {
    (held >= 0 && fill >= 0) || (held <= 0 && fill <= 0)
}

/// The volume-weighted mean of the held average and the fill price, rounded
/// toward zero.
pub open spec fn weighted_avg(old_avg: int, old_qty: int, fill_price: int, fill_qty: int) -> int {
    trunc_div(
        old_avg * spec_abs(old_qty) + fill_price * spec_abs(fill_qty),
        spec_abs(old_qty) + spec_abs(fill_qty),
    )
}

/// The part of a position that a reduction of `reduce_qty` closes.
pub open spec fn closed_qty(held: int, reduce_qty: int) -> int {
    if spec_abs(reduce_qty) <= spec_abs(held) {
        spec_abs(reduce_qty)
    } else {
        spec_abs(held)
    }
}

/// Profit realized by closing `qty_closed` of a position at `exit_price`:
/// the closed quantity times the price move, with the sign flipped for a
/// short, scaled back to six decimals and rounded toward zero.
pub open spec fn closing_pnl(held: int, qty_closed: int, exit_price: int, entry_price: int) -> int {
    if held > 0 {
        trunc_div(qty_closed * (exit_price - entry_price), SCALE as int)
    } else {
        trunc_div(-qty_closed * (exit_price - entry_price), SCALE as int)
    }
}

/// Margin released by closing `qty_closed` out of `qty_before`: all of it on a
/// full close, else the share of the closed quantity, rounded down.
pub open spec fn margin_release(margin_held: int, qty_closed: int, qty_before: int) -> int {
    if qty_closed >= qty_before {
        margin_held
    } else {
        (margin_held * qty_closed) / qty_before
    }
}

/// A quotient lies between any two bounds that enclose the dividend's ratio.
pub proof fn lemma_trunc_div_between(n: int, d: int, lo: int, hi: int)
    requires
        d > 0,
        d * lo <= n <= d * hi,
    ensures
        lo <= trunc_div(n, d) <= hi,
{
    if n >= 0 {
        let q = n / d;
        assert(0 <= q && q * d <= n < (q + 1) * d) by (nonlinear_arith)
            requires
                n >= 0,
                d > 0,
                q == n / d,
        ;
        assert(q <= hi) by (nonlinear_arith)
            requires
                q * d <= n,
                n <= d * hi,
                d > 0,
        ;
        assert(lo <= q) by (nonlinear_arith)
            requires
                n < (q + 1) * d,
                d * lo <= n,
                d > 0,
        ;
    } else {
        let m = -n;
        let q = m / d;
        assert(0 <= q && q * d <= m < (q + 1) * d) by (nonlinear_arith)
            requires
                m >= 0,
                d > 0,
                q == m / d,
        ;
        assert(-q <= hi) by (nonlinear_arith)
            requires
                m < (q + 1) * d,
                -m <= d * hi,
                d > 0,
        ;
        assert(lo <= -q) by (nonlinear_arith)
            requires
                q * d <= m,
                d * lo <= -m,
                d > 0,
        ;
    }
}

/// The weighted mean of two prices lies between them.
pub proof fn lemma_weighted_avg_between(old_avg: int, old_qty: int, fill_price: int, fill_qty: int)
    requires
        spec_abs(old_qty) + spec_abs(fill_qty) > 0,
    ensures
        old_avg <= fill_price ==> old_avg <= weighted_avg(old_avg, old_qty, fill_price, fill_qty)
            <= fill_price,
        fill_price <= old_avg ==> fill_price <= weighted_avg(
            old_avg,
            old_qty,
            fill_price,
            fill_qty,
        ) <= old_avg,
        old_qty == 0 ==> weighted_avg(old_avg, old_qty, fill_price, fill_qty) == fill_price,
{
    let w1 = spec_abs(old_qty);
    let w2 = spec_abs(fill_qty);
    let n = old_avg * w1 + fill_price * w2;
    let d = w1 + w2;
    if old_avg <= fill_price {
        assert(d * old_avg <= n <= d * fill_price) by (nonlinear_arith)
            requires
                w1 >= 0,
                w2 >= 0,
                d == w1 + w2,
                n == old_avg * w1 + fill_price * w2,
                old_avg <= fill_price,
        ;
        lemma_trunc_div_between(n, d, old_avg, fill_price);
    }
    if fill_price <= old_avg {
        assert(d * fill_price <= n <= d * old_avg) by (nonlinear_arith)
            requires
                w1 >= 0,
                w2 >= 0,
                d == w1 + w2,
                n == old_avg * w1 + fill_price * w2,
                fill_price <= old_avg,
        ;
        lemma_trunc_div_between(n, d, fill_price, old_avg);
    }
    if old_qty == 0 {
        assert(n == d * fill_price) by (nonlinear_arith)
            requires
                w1 == 0,
                d == w1 + w2,
                n == old_avg * w1 + fill_price * w2,
        ;
        lemma_trunc_div_between(n, d, fill_price, fill_price);
    }
}

/// A share of the margin never exceeds the margin, and a partial close of a
/// funded position leaves some margin behind.
pub proof fn lemma_margin_release_bounds(margin_held: int, qty_closed: int, qty_before: int)
    requires
        margin_held >= 0,
        0 <= qty_closed <= qty_before,
    ensures
        0 <= margin_release(margin_held, qty_closed, qty_before) <= margin_held,
        qty_closed < qty_before && margin_held > 0 ==> margin_release(
            margin_held,
            qty_closed,
            qty_before,
        ) < margin_held,
{
    if qty_closed < qty_before {
        let n = margin_held * qty_closed;
        let q = n / qty_before;
        assert(n >= 0) by (nonlinear_arith)
            requires
                n == margin_held * qty_closed,
                margin_held >= 0,
                qty_closed >= 0,
        ;
        assert(0 <= q && q * qty_before <= n) by (nonlinear_arith)
            requires
                n >= 0,
                qty_before > 0,
                q == n / qty_before,
        ;
        assert(margin_held > 0 ==> q < margin_held) by (nonlinear_arith)
            requires
                q * qty_before <= n,
                n == margin_held * qty_closed,
                0 <= qty_closed < qty_before,
                margin_held >= 0,
                q >= 0,
        ;
        assert(q <= margin_held) by (nonlinear_arith)
            requires
                q * qty_before <= n,
                n == margin_held * qty_closed,
                0 <= qty_closed < qty_before,
                margin_held >= 0,
                q >= 0,
        ;
    }
}

/// Splitting the margin by the divisor first gives the same share as
/// multiplying first.
pub proof fn lemma_margin_release_split(margin_held: int, qty_closed: int, qty_before: int)
    requires
        margin_held >= 0,
        0 <= qty_closed,
        0 < qty_before,
    ensures
        (margin_held * qty_closed) / qty_before == (margin_held / qty_before) * qty_closed + ((
            margin_held % qty_before) * qty_closed) / qty_before,
{
    let q = margin_held / qty_before;
    let r = margin_held % qty_before;
    vstd::arithmetic::div_mod::lemma_fundamental_div_mod(margin_held, qty_before);
    assert(margin_held * qty_closed == r * qty_closed + (q * qty_closed) * qty_before)
        by (nonlinear_arith)
        requires
            margin_held == qty_before * q + r,
    ;
    vstd::arithmetic::div_mod::lemma_hoist_over_denominator(
        r * qty_closed,
        q * qty_closed,
        qty_before as nat,
    );
}

/// Computes the profit realized by closing `qty_closed` of a position of
/// `held` entered at `entry_price`, at `exit_price`.
pub fn realized_on_close(held: i64, qty_closed: u64, exit_price: i64, entry_price: i64) -> (pnl:
    i128)
    requires
        qty_closed <= 0x8000_0000_0000_0000,
    ensures
        pnl == closing_pnl(held as int, qty_closed as int, exit_price as int, entry_price as int),
{
    let price_diff: i128 = (exit_price as i128) - (entry_price as i128);
    let signed_closed: i128 = if held > 0 {
        qty_closed as i128
    } else {
        -(qty_closed as i128)
    };
    proof {
        assert(-0x8000_0000_0000_0000_0000_0000_0000_0000 <= signed_closed * price_diff
            <= 0x7fff_ffff_ffff_ffff_ffff_ffff_ffff_ffff) by (nonlinear_arith)
            requires
                -0x8000_0000_0000_0000 <= signed_closed <= 0x8000_0000_0000_0000,
                -0xffff_ffff_ffff_ffff <= price_diff <= 0xffff_ffff_ffff_ffff,
        ;
        assert(-(qty_closed as int) * (price_diff as int) == (-(qty_closed as int)) * (
        price_diff as int)) by (nonlinear_arith);
    }
    signed_closed * price_diff / SCALE
}

impl PositionDetails {
    /// The record is tagged, and holds margin exactly while it holds quantity.
    pub open spec fn wf(&self) -> bool {
        &&& self.magic == POSITION_DETAILS_MAGIC
        &&& (self.margin_held == 0 <==> self.total_qty == 0)
    }

    /// The record after a same-direction fill.
    pub open spec fn added(
        self,
        fill_price: i64,
        fill_qty: i64,
        fee: i128,
        timestamp: i64,
        additional_margin: u128,
    ) -> PositionDetails {
        PositionDetails {
            avg_entry_price: weighted_avg(
                self.avg_entry_price as int,
                self.total_qty as int,
                fill_price as int,
                fill_qty as int,
            ) as i64,
            total_qty: (self.total_qty + fill_qty) as i64,
            total_fees: clamp_i128(self.total_fees + fee) as i128,
            trade_count: (self.trade_count + 1) as u32,
            last_update_ts: timestamp,
            margin_held: clamp_u128(self.margin_held + additional_margin) as u128,
            ..self
        }
    }

    /// Profit realized by reducing the position by `reduce_qty` at `exit_price`.
    pub open spec fn reduce_pnl(self, exit_price: i64, reduce_qty: i64) -> int {
        closing_pnl(
            self.total_qty as int,
            closed_qty(self.total_qty as int, reduce_qty as int),
            exit_price as int,
            self.avg_entry_price as int,
        )
    }

    /// Margin released by reducing the position by `reduce_qty`.
    pub open spec fn reduce_release(self, reduce_qty: i64) -> int {
        margin_release(
            self.margin_held as int,
            closed_qty(self.total_qty as int, reduce_qty as int),
            spec_abs(self.total_qty as int),
        )
    }

    /// Quantity left after reducing the position by `reduce_qty`: the closed
    /// part is taken off toward zero.
    pub open spec fn reduce_remaining(self, reduce_qty: i64) -> int {
        if self.total_qty > 0 {
            self.total_qty - closed_qty(self.total_qty as int, reduce_qty as int)
        } else {
            self.total_qty + closed_qty(self.total_qty as int, reduce_qty as int)
        }
    }

    /// The record after a reduction.
    pub open spec fn reduced(self, exit_price: i64, reduce_qty: i64, fee: i128, timestamp: i64)
        -> PositionDetails {
        PositionDetails {
            total_qty: self.reduce_remaining(reduce_qty) as i64,
            realized_pnl: clamp_i128(self.realized_pnl + self.reduce_pnl(exit_price, reduce_qty))
                as i128,
            total_fees: clamp_i128(self.total_fees + fee) as i128,
            trade_count: (self.trade_count + 1) as u32,
            last_update_ts: timestamp,
            margin_held: (self.margin_held - self.reduce_release(reduce_qty)) as u128,
            ..self
        }
    }

    /// Creates the record of a position opened by its first fill.
    pub fn new(
        portfolio: Pubkey,
        slab_index: u16,
        instrument_index: u16,
        entry_price: i64,
        initial_qty: i64,
        timestamp: i64,
        bump: u8,
        initial_margin: u128,
        leverage: u8,
    ) -> (details: PositionDetails)
        ensures
            details == (PositionDetails {
                magic: POSITION_DETAILS_MAGIC,
                portfolio,
                slab_index,
                instrument_index,
                bump,
                avg_entry_price: entry_price,
                total_qty: initial_qty,
                realized_pnl: 0,
                total_fees: 0,
                trade_count: 1,
                last_update_ts: timestamp,
                margin_held: initial_margin,
                leverage,
            }),
            details.wf() <==> (initial_margin == 0 <==> initial_qty == 0),
    {
        PositionDetails {
            magic: POSITION_DETAILS_MAGIC,
            portfolio,
            slab_index,
            instrument_index,
            bump,
            avg_entry_price: entry_price,
            total_qty: initial_qty,
            realized_pnl: 0,
            total_fees: 0,
            trade_count: 1,
            last_update_ts: timestamp,
            margin_held: initial_margin,
            leverage,
        }
    }

    /// Tells whether the record carries the tag of a written position record.
    pub fn validate(&self) -> (valid: bool)
        ensures
            valid == (self.magic == POSITION_DETAILS_MAGIC),
    {
        self.magic == POSITION_DETAILS_MAGIC
    }

    /// Applies a fill that opens the position or adds to it in its own
    /// direction. The entry price becomes the volume-weighted mean of the held
    /// average and the fill price; quantity, fees and margin grow.
    pub fn add_to_position(
        &mut self,
        fill_price: i64,
        fill_qty: i64,
        fee: i128,
        timestamp: i64,
        additional_margin: u128,
    )
        requires
            same_direction(old(self).total_qty as int, fill_qty as int),
            old(self).total_qty + fill_qty != 0,
            i64::MIN <= old(self).total_qty + fill_qty <= i64::MAX,
            old(self).trade_count < u32::MAX,
        ensures
            *final(self) == old(self).added(fill_price, fill_qty, fee, timestamp, additional_margin),
            final(self).avg_entry_price == weighted_avg(
                old(self).avg_entry_price as int,
                old(self).total_qty as int,
                fill_price as int,
                fill_qty as int,
            ),
            final(self).total_qty == old(self).total_qty + fill_qty,
            old(self).total_qty == 0 ==> final(self).avg_entry_price == fill_price,
            old(self).wf() && additional_margin > 0 ==> final(self).wf(),
    {
        let held_abs: u64 = abs_i64(self.total_qty);
        let fill_abs: u64 = abs_i64(fill_qty);
        let old_cost: i128 = mul_i64_u64(self.avg_entry_price, held_abs);
        let new_cost: i128 = mul_i64_u64(fill_price, fill_abs);
        proof {
            lemma_weighted_avg_between(
                self.avg_entry_price as int,
                self.total_qty as int,
                fill_price as int,
                fill_qty as int,
            );
            assert(-0x8000_0000_0000_0000_0000_0000_0000_0000 <= old_cost + new_cost
                <= 0x7fff_ffff_ffff_ffff_ffff_ffff_ffff_ffff) by (nonlinear_arith)
                requires
                    old_cost == (self.avg_entry_price as int) * (held_abs as int),
                    new_cost == (fill_price as int) * (fill_abs as int),
                    -0x8000_0000_0000_0000 <= self.avg_entry_price < 0x8000_0000_0000_0000,
                    -0x8000_0000_0000_0000 <= fill_price < 0x8000_0000_0000_0000,
                    0 <= held_abs,
                    0 <= fill_abs,
                    held_abs + fill_abs <= 0x8000_0000_0000_0000,
            ;
        }
        let total_cost: i128 = old_cost + new_cost;
        let total_abs: i128 = (held_abs as i128) + (fill_abs as i128);
        let new_avg: i128 = total_cost / total_abs;
        self.avg_entry_price = new_avg as i64;
        self.total_qty = self.total_qty + fill_qty;
        self.total_fees = saturating_add_i128(self.total_fees, fee);
        self.trade_count = self.trade_count + 1;
        self.last_update_ts = timestamp;
        self.margin_held = self.margin_held.saturating_add(additional_margin);
    }

    /// Applies a fill against the position's direction. Realizes the profit of
    /// the closed part, releases its share of the margin (all of it when the
    /// position closes), and returns the profit, the quantity left and the
    /// margin released. A reduction larger than the position closes it and
    /// no more.
    pub fn reduce_position(&mut self, exit_price: i64, reduce_qty: i64, fee: i128, timestamp: i64)
        -> (out: (i128, i64, u128))
        requires
            old(self).trade_count < u32::MAX,
        ensures
            *final(self) == old(self).reduced(exit_price, reduce_qty, fee, timestamp),
            out.0 == old(self).reduce_pnl(exit_price, reduce_qty),
            out.1 == old(self).reduce_remaining(reduce_qty),
            out.2 == old(self).reduce_release(reduce_qty),
            final(self).realized_pnl == clamp_i128(old(self).realized_pnl + out.0),
            final(self).total_qty == out.1,
            out.2 <= old(self).margin_held,
            final(self).margin_held == old(self).margin_held - out.2,
            spec_abs(out.1 as int) == spec_abs(old(self).total_qty as int) - closed_qty(
                old(self).total_qty as int,
                reduce_qty as int,
            ),
            old(self).wf() ==> final(self).wf(),
    {
        let held_abs: u64 = abs_i64(self.total_qty);
        let qty_closed: u64 = min_u64(abs_i64(reduce_qty), held_abs);
        proof {
            lemma_margin_release_bounds(
                self.margin_held as int,
                qty_closed as int,
                held_abs as int,
            );
        }
        let pnl: i128 = realized_on_close(
            self.total_qty,
            qty_closed,
            exit_price,
            self.avg_entry_price,
        );
        let remaining: i128 = if self.total_qty > 0 {
            (self.total_qty as i128) - (qty_closed as i128)
        } else {
            (self.total_qty as i128) + (qty_closed as i128)
        };
        let margin_to_release: u128 = if qty_closed >= held_abs {
            self.margin_held
        } else {
            proof {
                lemma_margin_release_split(
                    self.margin_held as int,
                    qty_closed as int,
                    held_abs as int,
                );
            }
            let divisor: u128 = held_abs as u128;
            let closed: u128 = qty_closed as u128;
            let whole: u128 = self.margin_held / divisor;
            let rest: u128 = self.margin_held % divisor;
            assert(rest * closed <= 0xffff_ffff_ffff_ffff_ffff_ffff_ffff_ffff) by (nonlinear_arith)
                requires
                    0 <= rest < divisor,
                    0 <= closed < divisor,
                    divisor <= 0x8000_0000_0000_0000,
            ;
            assert(whole * closed <= self.margin_held) by (nonlinear_arith)
                requires
                    whole == self.margin_held / divisor,
                    0 <= closed < divisor,
                    divisor > 0,
                    self.margin_held >= 0,
            ;
            whole * closed + (rest * closed) / divisor
        };
        self.realized_pnl = saturating_add_i128(self.realized_pnl, pnl);
        self.total_fees = saturating_add_i128(self.total_fees, fee);
        self.trade_count = self.trade_count + 1;
        self.last_update_ts = timestamp;
        self.total_qty = remaining as i64;
        self.margin_held = self.margin_held - margin_to_release;
        (pnl, self.total_qty, margin_to_release)
    }
}

/// The profit realized by a reduction always fits the field that holds it.
pub proof fn lemma_reduce_pnl_in_range(record: PositionDetails, exit_price: i64, reduce_qty: i64)
    ensures
        i128::MIN <= record.reduce_pnl(exit_price, reduce_qty) <= i128::MAX,
{
    let closed = closed_qty(record.total_qty as int, reduce_qty as int);
    let diff = exit_price - record.avg_entry_price;
    let bound = 0x200_0000_0000_0000_0000_0000_0000_0000int;
    assert(-0x8000_0000_0000_0000_0000_0000_0000_0000 <= closed * diff
        <= 0x8000_0000_0000_0000_0000_0000_0000_0000) by (nonlinear_arith)
        requires
            0 <= closed <= 0x8000_0000_0000_0000,
            -0xffff_ffff_ffff_ffff <= diff <= 0xffff_ffff_ffff_ffff,
    ;
    assert(-closed * diff == -(closed * diff)) by (nonlinear_arith);
    lemma_trunc_div_between(closed * diff, SCALE as int, -bound, bound);
    lemma_trunc_div_between(-closed * diff, SCALE as int, -bound, bound);
}

/// The cost of the first `n` fills, each a price and a quantity: the sum of
/// price times magnitude.
pub open spec fn fills_cost(fills: Seq<(i64, i64)>, n: int) -> int
    decreases n,
{
    if n <= 0 {
        0
    } else {
        fills_cost(fills, n - 1) + fills[n - 1].0 * spec_abs(fills[n - 1].1 as int)
    }
}

/// The volume of the first `n` fills: the sum of their magnitudes.
pub open spec fn fills_volume(fills: Seq<(i64, i64)>, n: int) -> int
    decreases n,
{
    if n <= 0 {
        0
    } else {
        fills_volume(fills, n - 1) + spec_abs(fills[n - 1].1 as int)
    }
}

/// The record after the first `n` fills have been added to it in order.
pub open spec fn after_fills(start: PositionDetails, fills: Seq<(i64, i64)>, n: int)
    -> PositionDetails
    decreases n,
{
    if n <= 0 {
        start
    } else {
        after_fills(start, fills, n - 1).added(fills[n - 1].0, fills[n - 1].1, 0, 0, 0)
    }
}

/// All fills buy, or all fills sell, and none is empty.
pub open spec fn fills_same_direction(fills: Seq<(i64, i64)>) -> bool {
    ||| forall|i: int| 0 <= i < fills.len() ==> (#[trigger] fills[i]).1 > 0
    ||| forall|i: int| 0 <= i < fills.len() ==> (#[trigger] fills[i]).1 < 0
}

/// Every running average along the fills is a whole number: the cost of each
/// prefix is a multiple of its volume.
pub open spec fn fills_divide_evenly(fills: Seq<(i64, i64)>) -> bool {
    forall|k: int|
        1 <= k <= fills.len() ==> #[trigger] fills_cost(fills, k) % fills_volume(fills, k) == 0
}

/// A quotient without remainder, multiplied back, gives the dividend.
pub proof fn lemma_exact_trunc_div(n: int, d: int)
    requires
        d > 0,
        n % d == 0,
    ensures
        trunc_div(n, d) * d == n,
{
    vstd::arithmetic::div_mod::lemma_fundamental_div_mod(n, d);
    if n < 0 {
        let q = n / d;
        assert(n == d * q);
        assert(-n == (-q) * d) by (nonlinear_arith)
            requires
                n == d * q,
        ;
        vstd::arithmetic::div_mod::lemma_mod_multiples_basic(-q, d);
        vstd::arithmetic::div_mod::lemma_fundamental_div_mod(-n, d);
        let p = (-n) / d;
        assert(-n == d * p);
        assert((-p) * d == n) by (nonlinear_arith)
            requires
                -n == d * p,
        ;
    } else {
        let q = n / d;
        assert(q * d == n) by (nonlinear_arith)
            requires
                n == d * q,
        ;
    }
}

/// The volume of same-direction fills grows with every fill.
pub proof fn lemma_fills_volume_grows(fills: Seq<(i64, i64)>, n: int, m: int)
    requires
        0 <= n <= m <= fills.len(),
        fills_same_direction(fills),
    ensures
        fills_volume(fills, n) <= fills_volume(fills, m),
        n >= 1 ==> fills_volume(fills, n) >= 1,
        fills_volume(fills, 0) == 0,
    decreases m,
{
    if n < m {
        lemma_fills_volume_grows(fills, n, m - 1);
        assert(fills[m - 1].1 != 0);
    } else if n >= 1 {
        lemma_fills_volume_grows(fills, n - 1, n - 1);
        assert(fills[n - 1].1 != 0);
    }
}

/// After same-direction fills on a flat position, the quantity is the volume
/// of the fills, signed by their direction, and, while every running average
/// is a whole number, the entry price times the volume is the cost of the
/// fills: the entry price is the volume-weighted mean of all fill prices.
pub proof fn lemma_avg_entry_is_volume_weighted_mean(
    start: PositionDetails,
    fills: Seq<(i64, i64)>,
    n: int,
)
    requires
        start.total_qty == 0,
        1 <= n <= fills.len(),
        fills_same_direction(fills),
        fills_volume(fills, fills.len() as int) <= i64::MAX,
        fills_divide_evenly(fills),
    ensures
        spec_abs(after_fills(start, fills, n).total_qty as int) == fills_volume(fills, n),
        after_fills(start, fills, n).avg_entry_price * fills_volume(fills, n) == fills_cost(
            fills,
            n,
        ),
        (fills[0].1 > 0) == (after_fills(start, fills, n).total_qty > 0),
    decreases n,
{
    let before = after_fills(start, fills, n - 1);
    let price = fills[n - 1].0;
    let qty = fills[n - 1].1;
    lemma_fills_volume_grows(fills, n - 1, n);
    lemma_fills_volume_grows(fills, n, fills.len() as int);
    assert(qty != 0);
    if n == 1 {
        assert(before == start);
        assert(fills_volume(fills, 0) == 0);
        assert(fills_cost(fills, 0) == 0);
    } else {
        lemma_avg_entry_is_volume_weighted_mean(start, fills, n - 1);
        assert(fills[0].1 != 0);
        assert((fills[0].1 > 0) == (qty > 0));
    }
    let volume_before = fills_volume(fills, n - 1);
    let volume = fills_volume(fills, n);
    let cost = fills_cost(fills, n);
    assert(spec_abs(before.total_qty as int) == volume_before);
    assert(before.avg_entry_price * volume_before == fills_cost(fills, n - 1));
    assert(same_direction(before.total_qty as int, qty as int));
    assert(spec_abs(before.total_qty as int) + spec_abs(qty as int) == volume);
    lemma_weighted_avg_between(
        before.avg_entry_price as int,
        before.total_qty as int,
        price as int,
        qty as int,
    );
    let avg = weighted_avg(
        before.avg_entry_price as int,
        before.total_qty as int,
        price as int,
        qty as int,
    );
    assert(avg == trunc_div(cost, volume));
    assert(cost % volume == 0);
    lemma_exact_trunc_div(cost, volume);
    assert(i64::MIN <= avg <= i64::MAX);
    assert(after_fills(start, fills, n).avg_entry_price == avg);
    assert(after_fills(start, fills, n).total_qty == before.total_qty + qty);
}

/// After same-direction fills on a flat position, the entry price lies
/// between the lowest and the highest fill price.
pub proof fn lemma_avg_entry_within_fill_prices(
    start: PositionDetails,
    fills: Seq<(i64, i64)>,
    n: int,
    lowest: i64,
    highest: i64,
)
    requires
        start.total_qty == 0,
        1 <= n <= fills.len(),
        fills_same_direction(fills),
        fills_volume(fills, fills.len() as int) <= i64::MAX,
        forall|i: int| 0 <= i < fills.len() ==> lowest <= (#[trigger] fills[i]).0 <= highest,
    ensures
        lowest <= after_fills(start, fills, n).avg_entry_price <= highest,
        spec_abs(after_fills(start, fills, n).total_qty as int) == fills_volume(fills, n),
        (fills[0].1 > 0) == (after_fills(start, fills, n).total_qty > 0),
    decreases n,
{
    let before = after_fills(start, fills, n - 1);
    let price = fills[n - 1].0;
    let qty = fills[n - 1].1;
    lemma_fills_volume_grows(fills, n - 1, n);
    lemma_fills_volume_grows(fills, n, fills.len() as int);
    assert(qty != 0);
    assert(lowest <= price <= highest);
    if n == 1 {
        assert(before == start);
        assert(fills_volume(fills, 0) == 0);
    } else {
        lemma_avg_entry_within_fill_prices(start, fills, n - 1, lowest, highest);
        assert(fills[0].1 != 0);
        assert((fills[0].1 > 0) == (qty > 0));
    }
    lemma_weighted_avg_between(
        before.avg_entry_price as int,
        before.total_qty as int,
        price as int,
        qty as int,
    );
    assert(after_fills(start, fills, n).total_qty == before.total_qty + qty);
}

/// The fills all buy and the position is not short, or the fills all sell
/// and the position is not long; none of the fills is empty.
pub open spec fn fills_follow(held: int, fills: Seq<(i64, i64)>) -> bool {
    ||| held >= 0 && forall|i: int| 0 <= i < fills.len() ==> (#[trigger] fills[i]).1 > 0
    ||| held <= 0 && forall|i: int| 0 <= i < fills.len() ==> (#[trigger] fills[i]).1 < 0
}

/// The entry price stays near the volume-weighted mean.
///
/// Take a position, flat or not, and add `n` fills in its direction, all at
/// prices that are not negative. Count the position itself as a fill at its
/// entry price. Then the quantity is the sum of all quantities, and the entry
/// price is never above the volume-weighted mean of all prices and less than
/// `n` below it: with `cost` the sum of price times magnitude and `volume`
/// the sum of magnitudes, `0 <= cost - entry * volume <= n * (volume - 1)`.
/// Every fill rounds the average down by less than one unit, and what is
/// rounded away is never given back.
pub proof fn lemma_avg_entry_near_mean(start: PositionDetails, fills: Seq<(i64, i64)>, n: int)
    requires
        0 <= n <= fills.len(),
        fills_follow(start.total_qty as int, fills),
        start.total_qty == 0 || start.avg_entry_price >= 0,
        forall|i: int| 0 <= i < fills.len() ==> (#[trigger] fills[i]).0 >= 0,
        spec_abs(start.total_qty as int) + fills_volume(fills, fills.len() as int) <= i64::MAX,
    ensures
        ({
            let after = after_fills(start, fills, n);
            let volume = spec_abs(start.total_qty as int) + fills_volume(fills, n);
            let cost = start.avg_entry_price * spec_abs(start.total_qty as int) + fills_cost(
                fills,
                n,
            );
            &&& spec_abs(after.total_qty as int) == volume
            &&& (forall|i: int| 0 <= i < fills.len() ==> (#[trigger] fills[i]).1 > 0)
                ==> after.total_qty == start.total_qty + fills_volume(fills, n)
            &&& (forall|i: int| 0 <= i < fills.len() ==> (#[trigger] fills[i]).1 < 0)
                ==> after.total_qty == start.total_qty - fills_volume(fills, n)
            &&& after.total_qty == 0 || after.avg_entry_price >= 0
            &&& 0 <= cost - after.avg_entry_price * volume <= n * (volume - 1)
            &&& n >= 1 ==> cost - after.avg_entry_price * volume < n * volume
        }),
    decreases n,
{
    if n == 0 {
        assert(after_fills(start, fills, 0) == start);
        assert(fills_volume(fills, 0) == 0);
        assert(fills_cost(fills, 0) == 0);
    } else {
        lemma_avg_entry_near_mean(start, fills, n - 1);
        lemma_fills_volume_nonnegative(fills, n - 1);
        lemma_fills_volume_monotone(fills, n, fills.len() as int);
        let before = after_fills(start, fills, n - 1);
        let price = fills[n - 1].0;
        let qty = fills[n - 1].1;
        let weight = spec_abs(qty as int);
        assert(qty != 0);
        assert(price >= 0);
        let held = spec_abs(start.total_qty as int);
        let volume_before = held + fills_volume(fills, n - 1);
        let volume = held + fills_volume(fills, n);
        let cost_before = start.avg_entry_price * held + fills_cost(fills, n - 1);
        let cost = start.avg_entry_price * held + fills_cost(fills, n);
        assert(volume == volume_before + weight);
        assert(cost == cost_before + price * weight);
        assert(spec_abs(before.total_qty as int) == volume_before);
        assert(same_direction(before.total_qty as int, qty as int));
        lemma_weighted_avg_between(
            before.avg_entry_price as int,
            before.total_qty as int,
            price as int,
            qty as int,
        );
        let booked = before.avg_entry_price * volume_before + price * weight;
        assert(booked >= 0) by (nonlinear_arith)
            requires
                booked == before.avg_entry_price * volume_before + price * weight,
                volume_before == 0 || before.avg_entry_price >= 0,
                volume_before >= 0,
                price >= 0,
                weight >= 0,
        ;
        let avg = weighted_avg(
            before.avg_entry_price as int,
            before.total_qty as int,
            price as int,
            qty as int,
        );
        assert(avg == booked / volume);
        assert(0 <= avg && 0 <= booked - avg * volume <= volume - 1) by (nonlinear_arith)
            requires
                avg == booked / volume,
                booked >= 0,
                volume > 0,
        ;
        assert((n - 1) * (volume_before - 1) <= (n - 1) * (volume - 1)) by (nonlinear_arith)
            requires
                n >= 1,
                volume_before <= volume,
        ;
        assert(n * (volume - 1) == (n - 1) * (volume - 1) + (volume - 1)) by (nonlinear_arith);
        assert(after_fills(start, fills, n).avg_entry_price == avg);
        assert(after_fills(start, fills, n).total_qty == before.total_qty + qty);
        assert(cost - avg * volume == (cost_before - before.avg_entry_price * volume_before) + (
        booked - avg * volume));
        assert(n * (volume - 1) < n * volume) by (nonlinear_arith)
            requires
                n >= 1,
        ;
    }
}

/// The volume of fills is never negative.
pub proof fn lemma_fills_volume_nonnegative(fills: Seq<(i64, i64)>, n: int)
    ensures
        fills_volume(fills, n) >= 0,
    decreases n,
{
    if n > 0 {
        lemma_fills_volume_nonnegative(fills, n - 1);
    }
}

/// The volume of more fills is no smaller.
pub proof fn lemma_fills_volume_monotone(fills: Seq<(i64, i64)>, n: int, m: int)
    requires
        n <= m,
    ensures
        fills_volume(fills, n) <= fills_volume(fills, m),
    decreases m - n,
{
    if n < m {
        lemma_fills_volume_monotone(fills, n, m - 1);
        lemma_fills_volume_nonnegative(fills, m - 1);
        if m <= 0 {
            assert(fills_volume(fills, m) == 0);
            assert(fills_volume(fills, m - 1) == 0);
        }
    }
}

} // verus!
