use fair_launch_solana_program::account::AccountId;
use fair_launch_solana_program::config::Config;
use fair_launch_solana_program::curve::BondingCurve;
use fair_launch_solana_program::engine;
use fair_launch_solana_program::errors::CurveError;

fn fee_wallet() -> AccountId {
    AccountId(9)
}
fn trader() -> AccountId {
    AccountId(7)
}
fn asset() -> AccountId {
    AccountId(42)
}

fn config() -> Config {
    Config {
        fee_recipient: fee_wallet(),
        lamports_needed_to_complete_curve: 2_000_000_000,
        total_token_supply: 1_000_000_000,
        virtual_lamport_seed: 30_000_000_000,
        buy_fee_basis_points: 100,
        sell_fee_basis_points: 100,
    }
}

fn seeded_curve() -> BondingCurve {
    BondingCurve {
        virtual_token_reserves: 1_000_000_000,
        virtual_lamport_reserves: 30_000_000_000,
        actual_lamport_reserves: 0,
        is_completed: false,
    }
}

#[test]
fn swap_rejects_wrong_fee_recipient() {
    let mut c = seeded_curve();
    let before = c;
    let r = engine::swap(
        &mut c,
        &config(),
        trader(),
        asset(),
        AccountId(8),
        1_000_000_000,
        true,
        0,
    );
    assert_eq!(r.unwrap_err(), CurveError::IncorrectFeeRecipient);
    assert_eq!(c, before);
}

#[test]
fn swap_rejects_zero_amount() {
    let mut c = seeded_curve();
    let before = c;
    let r = engine::swap(&mut c, &config(), trader(), asset(), fee_wallet(), 0, true, 0);
    assert_eq!(r.unwrap_err(), CurveError::ZeroAmount);
    assert_eq!(c, before);
}

#[test]
fn swap_rejects_completed_curve_in_both_directions() {
    let mut c = seeded_curve();
    c.is_completed = true;
    let before = c;
    let buy = engine::swap(&mut c, &config(), trader(), asset(), fee_wallet(), 5, true, 0);
    assert_eq!(buy.unwrap_err(), CurveError::CurveAlreadyCompleted);
    let sell = engine::swap(&mut c, &config(), trader(), asset(), fee_wallet(), 5, false, 0);
    assert_eq!(sell.unwrap_err(), CurveError::CurveAlreadyCompleted);
    assert_eq!(c, before);
}

#[test]
fn swap_enforces_slippage_guard_before_moving_reserves() {
    let mut c = seeded_curve();
    let before = c;
    let r = engine::swap(
        &mut c,
        &config(),
        trader(),
        asset(),
        fee_wallet(),
        1_000_000_000,
        true,
        31_945_789,
    );
    assert_eq!(r.unwrap_err(), CurveError::SlippageExceeded);
    assert_eq!(c, before);

    // One token lower and the same swap goes through.
    let r = engine::swap(
        &mut c,
        &config(),
        trader(),
        asset(),
        fee_wallet(),
        1_000_000_000,
        true,
        31_945_788,
    );
    assert_eq!(r.unwrap().event.amount_out, 31_945_788);
}

#[test]
fn buy_swap_returns_full_receipt() {
    let mut c = seeded_curve();
    let receipt = engine::swap(
        &mut c,
        &config(),
        trader(),
        asset(),
        fee_wallet(),
        1_000_000_000,
        true,
        0,
    )
    .unwrap();
    assert_eq!(receipt.event.trader, trader());
    assert_eq!(receipt.event.asset, asset());
    assert!(receipt.event.is_buy);
    assert_eq!(receipt.event.amount_in, 1_000_000_000);
    assert_eq!(receipt.event.amount_out, 31_945_788);
    assert_eq!(receipt.fee_lamports, 10_000_000);
    assert_eq!(receipt.net_lamports, 990_000_000);
    assert!(!receipt.completed);
    assert_eq!(c.virtual_token_reserves, 968_054_212);
    assert_eq!(c.virtual_lamport_reserves, 30_990_000_000);
    assert_eq!(c.actual_lamport_reserves, 990_000_000);
}

#[test]
fn sell_swap_returns_full_receipt() {
    let mut c = BondingCurve {
        virtual_token_reserves: 968_054_212,
        virtual_lamport_reserves: 30_990_000_000,
        actual_lamport_reserves: 990_000_000,
        is_completed: false,
    };
    let receipt = engine::swap(
        &mut c,
        &config(),
        trader(),
        asset(),
        fee_wallet(),
        10_000_000,
        false,
        0,
    )
    .unwrap();
    assert!(!receipt.event.is_buy);
    assert_eq!(receipt.event.amount_in, 10_000_000);
    assert_eq!(receipt.event.amount_out, 316_853_601);
    assert_eq!(receipt.fee_lamports, 3_168_536);
    // The trader receives the gross output net of fee.
    assert_eq!(receipt.net_lamports, 313_685_065);
    assert!(!receipt.completed);
    assert_eq!(c.virtual_token_reserves, 978_054_212);
    assert_eq!(c.virtual_lamport_reserves, 30_669_977_863);
    assert_eq!(c.actual_lamport_reserves, 673_146_399);
}

#[test]
fn swap_reports_completion_on_the_crossing_buy() {
    let mut c = seeded_curve();
    let first = engine::swap(
        &mut c,
        &config(),
        trader(),
        asset(),
        fee_wallet(),
        1_000_000_000,
        true,
        0,
    )
    .unwrap();
    assert!(!first.completed);
    let second = engine::swap(
        &mut c,
        &config(),
        trader(),
        asset(),
        fee_wallet(),
        1_100_000_000,
        true,
        0,
    )
    .unwrap();
    assert!(second.completed);
    assert!(c.is_completed);
    // Any further attempt is rejected.
    let third = engine::swap(&mut c, &config(), trader(), asset(), fee_wallet(), 5, true, 0);
    assert_eq!(third.unwrap_err(), CurveError::CurveAlreadyCompleted);
}

#[test]
fn failed_arithmetic_leaves_curve_untouched() {
    let mut c = BondingCurve {
        virtual_token_reserves: 1_000,
        virtual_lamport_reserves: u64::MAX - 10,
        actual_lamport_reserves: 0,
        is_completed: false,
    };
    let mut cfg = config();
    cfg.buy_fee_basis_points = 0;
    let before = c;
    let r = engine::swap(&mut c, &cfg, trader(), asset(), fee_wallet(), 100, true, 0);
    assert_eq!(r.unwrap_err(), CurveError::OverflowOrUnderflowOccurred);
    assert_eq!(c, before);
}
