//! Vesting of realized profit, and the haircut that socializes losses.
//!
//! Realized profit is recognized over time: on every touch of a portfolio the
//! share that has matured moves from the unvested pool to the vested one.
//! After that the global haircut, a factor that only ever falls, shrinks what
//! is left unvested.

use crate::math::{clamp_i128, saturating_add_i128, saturating_sub_i128};
use crate::portfolio::{Portfolio, PortfolioView};
use vstd::prelude::*;

verus! {

/// The haircut index of a system that has socialized no loss.
pub const HAIRCUT_INDEX_ONE: u64 = 1_000_000;

/// The global haircut: a factor, six decimals, applied to unvested profit.
#[derive(Clone, Copy, Debug, PartialEq, Eq, Structural)]
pub struct GlobalHaircut {
    /// Cumulative factor. It starts at one and falls with every socialized loss.
    pub pnl_index: u64,
}

/// The vesting schedule.
#[derive(Clone, Copy, Debug, PartialEq, Eq, Structural)]
pub struct PnlVestingParams {
    /// Slots over which profit vests in a straight line. Zero vests at once.
    pub vesting_slots: u64,
}

/// Slots gone by since the last touch; a clock that ran backwards counts as
/// no time at all.
pub open spec fn elapsed_slots(last_slot: u64, current_slot: u64) -> int {
    if current_slot > last_slot {
        current_slot - last_slot
    } else {
        0
    }
}

/// The unvested profit that matures after `elapsed` slots: all of it once the
/// schedule has run, else the straight-line share, rounded down. A loss does
/// not vest.
pub open spec fn vesting_amount(pnl: int, elapsed: int, vesting_slots: int) -> int {
    if pnl <= 0 {
        0
    } else if elapsed >= vesting_slots {
        pnl
    } else {
        (pnl * elapsed) / vesting_slots
    }
}

/// Unvested profit after the haircut since the checkpoint: scaled by the
/// ratio of the index now to the index then, rounded down. Nothing changes
/// for a loss, without a checkpoint, or while the index has not fallen.
pub open spec fn haircut_pnl(pnl: int, checkpoint: int, index: int) -> int {
    if pnl > 0 && checkpoint > 0 && index < checkpoint {
        (pnl * index) / checkpoint
    } else {
        pnl
    }
}

/// The portfolio after a touch at `current_slot`.
pub open spec fn touched(
    portfolio: PortfolioView,
    haircut: GlobalHaircut,
    params: PnlVestingParams,
    current_slot: u64,
) -> PortfolioView {
    let vest = vesting_amount(
        portfolio.pnl as int,
        elapsed_slots(portfolio.last_slot, current_slot),
        params.vesting_slots as int,
    );
    let unvested = portfolio.pnl - vest;
    let kept = haircut_pnl(unvested, portfolio.pnl_index_checkpoint as int, haircut.pnl_index as int);
    PortfolioView {
        pnl: kept as i128,
        vested_pnl: clamp_i128(portfolio.vested_pnl + vest) as i128,
        equity: clamp_i128(portfolio.equity - (unvested - kept)) as i128,
        last_slot: if current_slot > portfolio.last_slot {
            current_slot
        } else {
            portfolio.last_slot
        },
        pnl_index_checkpoint: haircut.pnl_index,
        ..portfolio
    }
}

/// Taking the share of the whole parts first gives the same quotient as
/// multiplying first, and a share by a factor below one is no more than the
/// amount.
pub proof fn lemma_share_split(amount: int, part: int, whole: int)
    requires
        amount >= 0,
        0 <= part < whole,
    ensures
        (amount * part) / whole == (amount / whole) * part + ((amount % whole) * part) / whole,
        0 <= (amount * part) / whole <= amount,
        (amount / whole) * part <= amount,
        0 <= (amount % whole) * part < whole * whole,
{
    let q = amount / whole;
    let r = amount % whole;
    vstd::arithmetic::div_mod::lemma_fundamental_div_mod(amount, whole);
    assert(amount * part == r * part + (q * part) * whole) by (nonlinear_arith)
        requires
            amount == whole * q + r,
    ;
    vstd::arithmetic::div_mod::lemma_hoist_over_denominator(r * part, q * part, whole as nat);
    assert(0 <= (amount * part) / whole <= amount) by (nonlinear_arith)
        requires
            amount >= 0,
            0 <= part < whole,
    ;
    assert(0 <= r < whole) by (nonlinear_arith)
        requires
            r == amount % whole,
            whole > 0,
    ;
    assert(q >= 0 && q * whole <= amount) by (nonlinear_arith)
        requires
            q == amount / whole,
            amount >= 0,
            whole > 0,
    ;
    assert(q * part <= amount) by (nonlinear_arith)
        requires
            q >= 0,
            q * whole <= amount,
            0 <= part < whole,
    ;
    assert(0 <= r * part < whole * whole) by (nonlinear_arith)
        requires
            0 <= r < whole,
            0 <= part < whole,
    ;
}

/// The share `part / whole` of a non-negative amount, rounded down, without
/// leaving the range of the type on the way.
fn share_of(amount: u128, part: u64, whole: u64) -> (share: u128)
    requires
        part < whole,
        amount <= i128::MAX,
    ensures
        share == (amount as int * part as int) / (whole as int),
        share <= amount,
{
    proof {
        lemma_share_split(amount as int, part as int, whole as int);
        assert((whole as int) * (whole as int) <= 0xffff_ffff_ffff_ffff_ffff_ffff_ffff_ffff)
            by (nonlinear_arith)
            requires
                0 <= whole <= 0xffff_ffff_ffff_ffff,
        ;
    }
    let divisor: u128 = whole as u128;
    let factor: u128 = part as u128;
    let q: u128 = amount / divisor;
    let r: u128 = amount % divisor;
    q * factor + (r * factor) / divisor
}

/// Brings a portfolio up to date at `current_slot`: vests the matured share of
/// its unvested profit, then applies the haircut that has built up since its
/// checkpoint to what is left unvested, and takes the loss off its equity.
/// Vested profit never shrinks.
pub fn on_user_touch(
    portfolio: &mut Portfolio,
    haircut: &GlobalHaircut,
    params: &PnlVestingParams,
    current_slot: u64,
)
    ensures
        final(portfolio)@ == touched(old(portfolio)@, *haircut, *params, current_slot),
        final(portfolio).vested_pnl >= old(portfolio).vested_pnl,
        old(portfolio).pnl > 0 ==> 0 <= final(portfolio).pnl <= old(portfolio).pnl,
        old(portfolio).pnl <= 0 ==> final(portfolio).pnl == old(portfolio).pnl,
{
    let elapsed: u64 = if current_slot > portfolio.last_slot {
        current_slot - portfolio.last_slot
    } else {
        0
    };
    let vest: i128 = if portfolio.pnl <= 0 {
        0
    } else if elapsed >= params.vesting_slots {
        portfolio.pnl
    } else {
        share_of(portfolio.pnl as u128, elapsed, params.vesting_slots) as i128
    };
    let unvested: i128 = portfolio.pnl - vest;
    let kept: i128 = if unvested > 0 && portfolio.pnl_index_checkpoint > 0 && haircut.pnl_index
        < portfolio.pnl_index_checkpoint {
        share_of(unvested as u128, haircut.pnl_index, portfolio.pnl_index_checkpoint) as i128
    } else {
        unvested
    };
    portfolio.pnl = kept;
    portfolio.vested_pnl = saturating_add_i128(portfolio.vested_pnl, vest);
    portfolio.equity = saturating_sub_i128(portfolio.equity, unvested - kept);
    if current_slot > portfolio.last_slot {
        portfolio.last_slot = current_slot;
    }
    portfolio.pnl_index_checkpoint = haircut.pnl_index;
}

} // verus!
