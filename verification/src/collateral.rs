//! Movements of collateral between a trader and the counterparty pool.
//!
//! Every movement is checked before anything is written: it either happens in
//! full on both sides or leaves both portfolios as they were.

use crate::error::PercolatorError;
use crate::math::{clamp_i128, saturating_add_i128, saturating_sub_i128};
use crate::portfolio::{Portfolio, PortfolioView};
use vstd::prelude::*;

verus! {

/// The payer after `amount` has left it: balance, equity and principal fall.
pub open spec fn debited(account: PortfolioView, amount: int) -> PortfolioView {
    PortfolioView {
        lamports: (account.lamports - amount) as u64,
        equity: clamp_i128(account.equity - amount) as i128,
        principal: clamp_i128(account.principal - amount) as i128,
        ..account
    }
}

/// The payee after `amount` has reached it: balance, equity and principal rise.
pub open spec fn credited(account: PortfolioView, amount: int) -> PortfolioView {
    PortfolioView {
        lamports: (account.lamports + amount) as u64,
        equity: clamp_i128(account.equity + amount) as i128,
        principal: clamp_i128(account.principal + amount) as i128,
        ..account
    }
}

/// Why `amount` cannot move from `from` to `to`, if it cannot: the payer holds
/// too little, or the payee's balance would leave its range.
pub open spec fn move_refusal(from: PortfolioView, to: PortfolioView, amount: int) -> Option<
    PercolatorError,
> {
    if amount <= 0 {
        None
    } else if from.lamports < amount {
        Some(PercolatorError::InsufficientFunds)
    } else if to.lamports + amount > u64::MAX {
        Some(PercolatorError::Overflow)
    } else {
        None
    }
}

/// Both portfolios after margin of `amount` has moved from `from` to `to`.
pub open spec fn margin_moved(from: PortfolioView, to: PortfolioView, amount: u128) -> Result<
    (PortfolioView, PortfolioView),
    PercolatorError,
> {
    match move_refusal(from, to, amount as int) {
        Some(e) => Err(e),
        None => if amount == 0 {
            Ok((from, to))
        } else {
            Ok((debited(from, amount as int), credited(to, amount as int)))
        },
    }
}

/// The winner of a settlement: unvested profit, equity and balance rise.
pub open spec fn pnl_credited(account: PortfolioView, amount: int) -> PortfolioView {
    PortfolioView {
        lamports: (account.lamports + amount) as u64,
        equity: clamp_i128(account.equity + amount) as i128,
        pnl: clamp_i128(account.pnl + amount) as i128,
        ..account
    }
}

/// The loser of a settlement: unvested profit, equity and balance fall.
pub open spec fn pnl_debited(account: PortfolioView, amount: int) -> PortfolioView {
    PortfolioView {
        lamports: (account.lamports - amount) as u64,
        equity: clamp_i128(account.equity - amount) as i128,
        pnl: clamp_i128(account.pnl - amount) as i128,
        ..account
    }
}

/// Both portfolios after the trader's realized profit `realized_pnl` has been
/// settled against the pool: a profit is paid by the pool, a loss by the
/// trader.
pub open spec fn pnl_settled(user: PortfolioView, dlp: PortfolioView, realized_pnl: i128) -> Result<
    (PortfolioView, PortfolioView),
    PercolatorError,
> {
    if realized_pnl == 0 {
        Ok((user, dlp))
    } else if realized_pnl > 0 {
        match move_refusal(dlp, user, realized_pnl as int) {
            Some(e) => Err(e),
            None => Ok((pnl_credited(user, realized_pnl as int), pnl_debited(dlp, realized_pnl as int))),
        }
    } else {
        match move_refusal(user, dlp, -realized_pnl) {
            Some(e) => Err(e),
            None => Ok((pnl_debited(user, -realized_pnl), pnl_credited(dlp, -realized_pnl))),
        }
    }
}

/// By how much the equity of a portfolio has changed.
pub open spec fn equity_change(before: PortfolioView, after: PortfolioView) -> int {
    after.equity - before.equity
}

/// Moves `amount` of margin from `from` to `to`.
fn move_margin(from: &mut Portfolio, to: &mut Portfolio, amount: u128) -> (result: Result<
    (),
    PercolatorError,
>)
    ensures
        match margin_moved(old(from)@, old(to)@, amount) {
            Ok(moved) => {
                &&& result == Ok::<(), PercolatorError>(())
                &&& final(from)@ == moved.0
                &&& final(to)@ == moved.1
            },
            Err(e) => {
                &&& result == Err::<(), PercolatorError>(e)
                &&& *final(from) == *old(from)
                &&& *final(to) == *old(to)
            },
        },
{
    if amount == 0 {
        return Ok(());
    }
    if amount > from.lamports as u128 {
        return Err(PercolatorError::InsufficientFunds);
    }
    let margin: u64 = amount as u64;
    if margin > u64::MAX - to.lamports {
        return Err(PercolatorError::Overflow);
    }
    let margin_i128: i128 = margin as i128;
    from.lamports = from.lamports - margin;
    to.lamports = to.lamports + margin;
    from.equity = saturating_sub_i128(from.equity, margin_i128);
    to.equity = saturating_add_i128(to.equity, margin_i128);
    from.principal = saturating_sub_i128(from.principal, margin_i128);
    to.principal = saturating_add_i128(to.principal, margin_i128);
    Ok(())
}

/// Moves the margin of an opened or increased position from the trader to the
/// counterparty pool. Refuses, and changes nothing, when the trader's balance
/// is too small.
pub fn transfer_collateral_margin(
    user_portfolio: &mut Portfolio,
    dlp_portfolio: &mut Portfolio,
    margin_lamports: u128,
) -> (result: Result<(), PercolatorError>)
    ensures
        match margin_moved(old(user_portfolio)@, old(dlp_portfolio)@, margin_lamports) {
            Ok(moved) => {
                &&& result == Ok::<(), PercolatorError>(())
                &&& final(user_portfolio)@ == moved.0
                &&& final(dlp_portfolio)@ == moved.1
            },
            Err(e) => {
                &&& result == Err::<(), PercolatorError>(e)
                &&& *final(user_portfolio) == *old(user_portfolio)
                &&& *final(dlp_portfolio) == *old(dlp_portfolio)
            },
        },
{
    move_margin(user_portfolio, dlp_portfolio, margin_lamports)
}

/// Returns the margin of a closed or reduced position from the counterparty
/// pool to the trader. Refuses, and changes nothing, when the pool's balance
/// is too small.
pub fn return_margin_to_user(
    user_portfolio: &mut Portfolio,
    dlp_portfolio: &mut Portfolio,
    margin_lamports: u128,
) -> (result: Result<(), PercolatorError>)
    ensures
        match margin_moved(old(dlp_portfolio)@, old(user_portfolio)@, margin_lamports) {
            Ok(moved) => {
                &&& result == Ok::<(), PercolatorError>(())
                &&& final(dlp_portfolio)@ == moved.0
                &&& final(user_portfolio)@ == moved.1
            },
            Err(e) => {
                &&& result == Err::<(), PercolatorError>(e)
                &&& *final(user_portfolio) == *old(user_portfolio)
                &&& *final(dlp_portfolio) == *old(dlp_portfolio)
            },
        },
{
    move_margin(dlp_portfolio, user_portfolio, margin_lamports)
}

/// Pays `amount` of realized profit from `loser` to `winner`.
fn pay_pnl(winner: &mut Portfolio, loser: &mut Portfolio, amount: u64)
    requires
        amount > 0,
        move_refusal(old(loser)@, old(winner)@, amount as int) is None,
    ensures
        final(winner)@ == pnl_credited(old(winner)@, amount as int),
        final(loser)@ == pnl_debited(old(loser)@, amount as int),
{
    let amount_i128: i128 = amount as i128;
    winner.pnl = saturating_add_i128(winner.pnl, amount_i128);
    loser.pnl = saturating_sub_i128(loser.pnl, amount_i128);
    winner.equity = saturating_add_i128(winner.equity, amount_i128);
    loser.equity = saturating_sub_i128(loser.equity, amount_i128);
    loser.lamports = loser.lamports - amount;
    winner.lamports = winner.lamports + amount;
}

/// Settles the realized profit of a trade between the trader and the
/// counterparty pool, in one movement: what one side gains in unvested
/// profit, equity and balance, the other loses. Refuses, and changes nothing,
/// when the paying side's balance is too small.
///
/// While neither equity is at the end of its range, the two equities change
/// by equal and opposite amounts.
pub fn settle_pnl(user_portfolio: &mut Portfolio, dlp_portfolio: &mut Portfolio, realized_pnl: i128)
    -> (result: Result<(), PercolatorError>)
    ensures
        match pnl_settled(old(user_portfolio)@, old(dlp_portfolio)@, realized_pnl) {
            Ok(settled) => {
                &&& result == Ok::<(), PercolatorError>(())
                &&& final(user_portfolio)@ == settled.0
                &&& final(dlp_portfolio)@ == settled.1
            },
            Err(e) => {
                &&& result == Err::<(), PercolatorError>(e)
                &&& *final(user_portfolio) == *old(user_portfolio)
                &&& *final(dlp_portfolio) == *old(dlp_portfolio)
            },
        },
        result is Ok && i128::MIN <= old(user_portfolio).equity + realized_pnl <= i128::MAX
            && i128::MIN <= old(dlp_portfolio).equity - realized_pnl <= i128::MAX ==> equity_change(
            old(user_portfolio)@,
            final(user_portfolio)@,
        ) + equity_change(old(dlp_portfolio)@, final(dlp_portfolio)@) == 0,
        result is Ok ==> final(user_portfolio).lamports + final(dlp_portfolio).lamports == old(
            user_portfolio,
        ).lamports + old(dlp_portfolio).lamports,
{
    if realized_pnl == 0 {
        return Ok(());
    }
    if realized_pnl > 0 {
        if realized_pnl > dlp_portfolio.lamports as i128 {
            return Err(PercolatorError::InsufficientFunds);
        }
        let profit: u64 = realized_pnl as u64;
        if profit > u64::MAX - user_portfolio.lamports {
            return Err(PercolatorError::Overflow);
        }
        pay_pnl(user_portfolio, dlp_portfolio, profit);
    } else {
        if realized_pnl < -(user_portfolio.lamports as i128) {
            return Err(PercolatorError::InsufficientFunds);
        }
        let loss: u64 = (-realized_pnl) as u64;
        if loss > u64::MAX - dlp_portfolio.lamports {
            return Err(PercolatorError::Overflow);
        }
        pay_pnl(dlp_portfolio, user_portfolio, loss);
    }
    Ok(())
}

} // verus!
