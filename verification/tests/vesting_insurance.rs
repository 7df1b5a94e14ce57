use percolator::insurance::{InsuranceParams, InsuranceState};
use percolator::portfolio::Portfolio;
use percolator::vesting::{on_user_touch, GlobalHaircut, PnlVestingParams, HAIRCUT_INDEX_ONE};

fn portfolio(pnl: i128, vested: i128, last_slot: u64, checkpoint: u64) -> Portfolio {
    let mut p = Portfolio::new([2u8; 32], [1u8; 32]);
    p.pnl = pnl;
    p.vested_pnl = vested;
    p.equity = 10_000;
    p.last_slot = last_slot;
    p.pnl_index_checkpoint = checkpoint;
    p
}

const NO_HAIRCUT: GlobalHaircut = GlobalHaircut { pnl_index: HAIRCUT_INDEX_ONE };

#[test]
fn profit_vests_in_a_straight_line() {
    let mut p = portfolio(1_000, 50, 100, HAIRCUT_INDEX_ONE);
    on_user_touch(&mut p, &NO_HAIRCUT, &PnlVestingParams { vesting_slots: 400 }, 200);
    assert_eq!((p.pnl, p.vested_pnl), (750, 300));
    assert_eq!(p.last_slot, 200);
    assert_eq!(p.equity, 10_000);
    on_user_touch(&mut p, &NO_HAIRCUT, &PnlVestingParams { vesting_slots: 400 }, 201);
    // 750 / 400, rounded down
    assert_eq!((p.pnl, p.vested_pnl), (749, 301));
}

#[test]
fn profit_vests_in_full_once_the_schedule_has_run() {
    let mut p = portfolio(1_000, 0, 100, HAIRCUT_INDEX_ONE);
    on_user_touch(&mut p, &NO_HAIRCUT, &PnlVestingParams { vesting_slots: 400 }, 500);
    assert_eq!((p.pnl, p.vested_pnl), (0, 1_000));
    let mut at_once = portfolio(1_000, 0, 100, HAIRCUT_INDEX_ONE);
    on_user_touch(&mut at_once, &NO_HAIRCUT, &PnlVestingParams { vesting_slots: 0 }, 100);
    assert_eq!((at_once.pnl, at_once.vested_pnl), (0, 1_000));
}

#[test]
fn a_loss_does_not_vest_and_is_not_cut() {
    let mut p = portfolio(-1_000, 7, 100, HAIRCUT_INDEX_ONE);
    on_user_touch(&mut p, &GlobalHaircut { pnl_index: 1 }, &PnlVestingParams { vesting_slots: 10 }, 500);
    assert_eq!((p.pnl, p.vested_pnl, p.equity), (-1_000, 7, 10_000));
    assert_eq!(p.pnl_index_checkpoint, 1);
}

#[test]
fn a_clock_that_ran_backwards_vests_nothing() {
    let mut p = portfolio(1_000, 0, 100, HAIRCUT_INDEX_ONE);
    on_user_touch(&mut p, &NO_HAIRCUT, &PnlVestingParams { vesting_slots: 400 }, 50);
    assert_eq!((p.pnl, p.vested_pnl, p.last_slot), (1_000, 0, 100));
}

#[test]
fn haircut_shrinks_what_is_left_unvested() {
    let mut p = portfolio(1_000, 0, 100, 1_000_000);
    on_user_touch(&mut p, &GlobalHaircut { pnl_index: 900_000 }, &PnlVestingParams { vesting_slots: 400 }, 200);
    // 250 vest; 750 * 0.9 = 675 stay unvested; 75 leave the equity.
    assert_eq!((p.pnl, p.vested_pnl, p.equity), (675, 250, 9_925));
    assert_eq!(p.pnl_index_checkpoint, 900_000);
    // The same index a second time cuts nothing.
    on_user_touch(&mut p, &GlobalHaircut { pnl_index: 900_000 }, &PnlVestingParams { vesting_slots: 400 }, 200);
    assert_eq!((p.pnl, p.vested_pnl, p.equity), (675, 250, 9_925));
}

#[test]
fn haircut_needs_a_checkpoint_and_a_fallen_index() {
    let mut fresh = portfolio(1_000, 0, 100, 0);
    on_user_touch(&mut fresh, &GlobalHaircut { pnl_index: 500_000 }, &PnlVestingParams { vesting_slots: 400 }, 100);
    assert_eq!((fresh.pnl, fresh.equity, fresh.pnl_index_checkpoint), (1_000, 10_000, 500_000));
    let mut risen = portfolio(1_000, 0, 100, 500_000);
    on_user_touch(&mut risen, &NO_HAIRCUT, &PnlVestingParams { vesting_slots: 400 }, 100);
    assert_eq!((risen.pnl, risen.equity, risen.pnl_index_checkpoint), (1_000, 10_000, 1_000_000));
}

#[test]
fn vesting_at_the_ends_of_the_range() {
    let mut p = portfolio(i128::MAX, i128::MAX - 1, 0, u64::MAX);
    on_user_touch(&mut p, &GlobalHaircut { pnl_index: u64::MAX - 1 }, &PnlVestingParams { vesting_slots: u64::MAX }, u64::MAX - 1);
    let vest = i128::MAX - i128::MAX / (u64::MAX as i128) - 1;
    assert_eq!(p.vested_pnl, i128::MAX);
    assert!(p.pnl >= 0 && p.pnl <= i128::MAX - vest);
}

#[test]
fn fund_accrues_its_share_of_the_notional() {
    let mut fund = InsuranceState::new();
    let accrued = fund.accrue_from_fill(130_000_000_000, &InsuranceParams { fee_bps_to_insurance: 10 });
    assert_eq!(accrued, 130_000_000);
    assert_eq!(fund.vault_balance, 130_000_000);
    assert_eq!(fund.total_fees_accrued, 130_000_000);
    assert_eq!(fund.accrue_from_fill(9_999, &InsuranceParams { fee_bps_to_insurance: 1 }), 0);
    assert_eq!(fund.accrue_from_fill(19_999, &InsuranceParams { fee_bps_to_insurance: 1 }), 1);
    assert_eq!(fund.vault_balance, 130_000_001);
}

#[test]
fn accrual_rate_is_capped_at_the_whole_notional() {
    let mut fund = InsuranceState::new();
    assert_eq!(fund.accrue_from_fill(500, &InsuranceParams { fee_bps_to_insurance: 10_000 }), 500);
    assert_eq!(fund.accrue_from_fill(500, &InsuranceParams { fee_bps_to_insurance: u16::MAX }), 500);
    assert_eq!(fund.accrue_from_fill(u128::MAX, &InsuranceParams { fee_bps_to_insurance: 10_000 }), u128::MAX);
    assert_eq!(fund.vault_balance, u128::MAX);
    assert_eq!(fund.accrue_from_fill(u128::MAX, &InsuranceParams { fee_bps_to_insurance: 5_000 }), u128::MAX / 2);
}

#[test]
fn fund_covers_a_shortfall_up_to_its_balance() {
    let mut fund = InsuranceState::new();
    fund.vault_balance = 1_000;
    assert_eq!(fund.cover_shortfall(400), 400);
    assert_eq!((fund.vault_balance, fund.total_payouts, fund.uncovered_bad_debt), (600, 400, 0));
    assert_eq!(fund.cover_shortfall(900), 600);
    assert_eq!((fund.vault_balance, fund.total_payouts, fund.uncovered_bad_debt), (0, 1_000, 300));
    assert_eq!(fund.cover_shortfall(5), 0);
    assert_eq!((fund.vault_balance, fund.total_payouts, fund.uncovered_bad_debt), (0, 1_000, 305));
    assert_eq!(fund.cover_shortfall(0), 0);
}
