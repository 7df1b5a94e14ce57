//! The insurance fund: a balance fed by a share of every taker fill and
//! spent only to cover what a liquidated trader cannot pay.

use vstd::prelude::*;

verus! {

/// The highest accrual rate: the whole notional.
pub const MAX_ACCRUAL_BPS: u16 = 10_000;

/// How the fund is fed.
#[derive(Clone, Copy, Debug, PartialEq, Eq, Structural)]
pub struct InsuranceParams {
    /// Share of taker notional that goes to the fund, in basis points. A rate
    /// above the whole notional counts as the whole notional.
    pub fee_bps_to_insurance: u16,
}

/// The fund and its running totals.
#[derive(Clone, Copy, Debug, PartialEq, Eq, Structural)]
pub struct InsuranceState {
    /// What the fund holds.
    pub vault_balance: u128,
    /// Everything the fund has ever accrued.
    pub total_fees_accrued: u128,
    /// Everything the fund has ever paid out.
    pub total_payouts: u128,
    /// Shortfalls that the fund could not cover.
    pub uncovered_bad_debt: u128,
}

/// The accrual rate in force: the configured rate, at most the whole notional.
pub open spec fn accrual_rate(params: InsuranceParams) -> int {
    if params.fee_bps_to_insurance > MAX_ACCRUAL_BPS {
        MAX_ACCRUAL_BPS as int
    } else {
        params.fee_bps_to_insurance as int
    }
}

/// What a fill of `notional` adds to the fund.
pub open spec fn accrual_of(notional: int, params: InsuranceParams) -> int {
    (notional * accrual_rate(params)) / 10_000
}

/// What the fund pays toward a shortfall: the shortfall, at most the balance.
pub open spec fn coverage_of(balance: int, shortfall: int) -> int {
    if shortfall <= balance {
        shortfall
    } else {
        balance
    }
}

/// The sum of two amounts, at most the end of `u128`.
pub open spec fn capped_sum(a: int, b: int) -> int {
    if a + b > u128::MAX {
        u128::MAX as int
    } else {
        a + b
    }
}

/// Taking the share of the whole ten-thousands first gives the same accrual
/// as multiplying first, and the accrual never exceeds the notional.
pub proof fn lemma_accrual_split(notional: int, rate: int)
    requires
        notional >= 0,
        0 <= rate <= 10_000,
    ensures
        (notional * rate) / 10_000 == (notional / 10_000) * rate + ((notional % 10_000) * rate)
            / 10_000,
        0 <= (notional * rate) / 10_000 <= notional,
{
    let q = notional / 10_000;
    let r = notional % 10_000;
    assert(notional * rate == r * rate + (q * rate) * 10_000) by (nonlinear_arith)
        requires
            notional == 10_000 * q + r,
    ;
    vstd::arithmetic::div_mod::lemma_hoist_over_denominator(r * rate, q * rate, 10_000);
    assert(0 <= (notional * rate) / 10_000 <= notional) by (nonlinear_arith)
        requires
            notional >= 0,
            0 <= rate <= 10_000,
    ;
}

impl InsuranceState {
    /// An empty fund.
    pub fn new() -> (state: InsuranceState)
        ensures
            state == (InsuranceState {
                vault_balance: 0,
                total_fees_accrued: 0,
                total_payouts: 0,
                uncovered_bad_debt: 0,
            }),
    {
        InsuranceState {
            vault_balance: 0,
            total_fees_accrued: 0,
            total_payouts: 0,
            uncovered_bad_debt: 0,
        }
    }

    /// The fund after a fill of `notional` has fed it.
    pub open spec fn accrued(self, notional: u128, params: InsuranceParams) -> InsuranceState {
        InsuranceState {
            vault_balance: capped_sum(
                self.vault_balance as int,
                accrual_of(notional as int, params),
            ) as u128,
            total_fees_accrued: capped_sum(
                self.total_fees_accrued as int,
                accrual_of(notional as int, params),
            ) as u128,
            ..self
        }
    }

    /// The fund after it has paid what it can toward `shortfall`.
    pub open spec fn covered(self, shortfall: u128) -> InsuranceState {
        let payout = coverage_of(self.vault_balance as int, shortfall as int);
        InsuranceState {
            vault_balance: (self.vault_balance - payout) as u128,
            total_payouts: capped_sum(self.total_payouts as int, payout) as u128,
            uncovered_bad_debt: capped_sum(self.uncovered_bad_debt as int, shortfall - payout)
                as u128,
            ..self
        }
    }

    /// Feeds the fund with its share of a taker fill and returns the amount
    /// accrued. The balance never shrinks here.
    pub fn accrue_from_fill(&mut self, notional: u128, params: &InsuranceParams) -> (accrual: u128)
        ensures
            accrual == accrual_of(notional as int, *params),
            accrual <= notional,
            *final(self) == old(self).accrued(notional, *params),
            final(self).vault_balance >= old(self).vault_balance,
    {
        let rate: u128 = if params.fee_bps_to_insurance > MAX_ACCRUAL_BPS {
            MAX_ACCRUAL_BPS as u128
        } else {
            params.fee_bps_to_insurance as u128
        };
        proof {
            lemma_accrual_split(notional as int, rate as int);
        }
        let whole: u128 = notional / 10_000;
        let rest: u128 = notional % 10_000;
        assert(whole * rate <= notional) by (nonlinear_arith)
            requires
                whole == notional / 10_000,
                0 <= rate <= 10_000,
        ;
        assert(rest * rate <= 100_000_000) by (nonlinear_arith)
            requires
                0 <= rest < 10_000,
                0 <= rate <= 10_000,
        ;
        let accrual: u128 = whole * rate + (rest * rate) / 10_000;
        self.vault_balance = self.vault_balance.saturating_add(accrual);
        self.total_fees_accrued = self.total_fees_accrued.saturating_add(accrual);
        accrual
    }

    /// Pays toward a shortfall as much as the fund holds, and records the rest
    /// as uncovered. Returns the amount paid. The balance never goes negative.
    pub fn cover_shortfall(&mut self, shortfall: u128) -> (payout: u128)
        ensures
            payout == coverage_of(old(self).vault_balance as int, shortfall as int),
            payout <= shortfall,
            payout <= old(self).vault_balance,
            *final(self) == old(self).covered(shortfall),
            final(self).vault_balance == old(self).vault_balance - payout,
    {
        let payout: u128 = if shortfall <= self.vault_balance {
            shortfall
        } else {
            self.vault_balance
        };
        self.vault_balance = self.vault_balance - payout;
        self.total_payouts = self.total_payouts.saturating_add(payout);
        self.uncovered_bad_debt = self.uncovered_bad_debt.saturating_add(shortfall - payout);
        payout
    }
}

} // verus!
