use fair_launch_solana_program::curve::BondingCurve;
use fair_launch_solana_program::errors::CurveError;

fn seeded(virtual_token: u64, virtual_lamport: u64, actual_lamport: u64) -> BondingCurve {
    BondingCurve {
        virtual_token_reserves: virtual_token,
        virtual_lamport_reserves: virtual_lamport,
        actual_lamport_reserves: actual_lamport,
        is_completed: false,
    }
}

fn product(c: &BondingCurve) -> u128 {
    c.virtual_token_reserves as u128 * c.virtual_lamport_reserves as u128
}

#[test]
fn update_reserves_overwrites_fields_and_keeps_flag() {
    let mut c = seeded(10, 20, 30);
    c.update_reserves(2, 1, 3);
    assert_eq!(c.virtual_lamport_reserves, 2);
    assert_eq!(c.virtual_token_reserves, 1);
    assert_eq!(c.actual_lamport_reserves, 3);
    assert!(!c.is_completed);
}

#[test]
fn buy_strictly_moves_all_three_reserves() {
    let mut c = seeded(1_000_000_000, 30_000_000_000, 0);
    let before = c;
    let crossed = c.buy(u64::MAX, 1_000_000_000, 100).unwrap();
    assert!(!crossed);
    assert_eq!(c.virtual_token_reserves, 968_054_212);
    assert_eq!(c.virtual_lamport_reserves, 30_990_000_000);
    assert_eq!(c.actual_lamport_reserves, 990_000_000);
    assert!(c.virtual_token_reserves < before.virtual_token_reserves);
    assert!(c.virtual_lamport_reserves > before.virtual_lamport_reserves);
    assert!(c.actual_lamport_reserves > before.actual_lamport_reserves);
    assert!(!c.is_completed);
}

#[test]
fn sell_strictly_moves_all_three_reserves() {
    let mut c = seeded(968_054_212, 30_990_000_000, 990_000_000);
    let before = c;
    c.sell(10_000_000, 100).unwrap();
    assert_eq!(c.virtual_token_reserves, 978_054_212);
    assert_eq!(c.virtual_lamport_reserves, 30_669_977_863);
    assert_eq!(c.actual_lamport_reserves, 673_146_399);
    assert!(c.virtual_token_reserves > before.virtual_token_reserves);
    assert!(c.virtual_lamport_reserves < before.virtual_lamport_reserves);
    assert!(c.actual_lamport_reserves < before.actual_lamport_reserves);
}

#[test]
fn constant_product_never_drops_on_a_buy() {
    let mut c = seeded(1_000_000_000, 30_000_000_000, 0);
    let before = product(&c);
    c.buy(u64::MAX, 1_000_000_000, 100).unwrap();
    assert!(product(&c) >= before);
}

#[test]
fn constant_product_never_rises_on_a_fee_charging_sell() {
    let mut c = seeded(968_054_212, 30_990_000_000, 990_000_000);
    let before = product(&c);
    c.sell(10_000_000, 100).unwrap();
    assert!(product(&c) <= before);
}

#[test]
fn round_trip_returns_strictly_less_than_paid() {
    let amount_in: u64 = 1_000_000_000;
    let mut c = seeded(1_000_000_000, 30_000_000_000, 0);
    let (tokens_bought, _) = c.calc_amount_out(amount_in, true, 100).unwrap();
    c.buy(u64::MAX, amount_in, 100).unwrap();

    // Immediately sell the very same tokens back.
    let (lamports_back, sell_fee) = c.calc_amount_out(tokens_bought, false, 100).unwrap();
    c.sell(tokens_bought, 100).unwrap();

    let received = lamports_back - sell_fee;
    assert_eq!(tokens_bought, 31_945_788);
    assert_eq!(received, 980_099_971);
    assert!(received < amount_in);
    // The curve holds every token again.
    assert_eq!(c.virtual_token_reserves, 1_000_000_000);
}

#[test]
fn buy_near_max_reserves_fails_with_arithmetic_error() {
    let mut c = seeded(1_000, u64::MAX - 10, 0);
    let before = c;
    assert_eq!(
        c.buy(u64::MAX, 100, 0),
        Err(CurveError::OverflowOrUnderflowOccurred)
    );
    assert_eq!(c, before);
}

#[test]
fn sell_near_max_token_reserves_fails_with_arithmetic_error() {
    let mut c = seeded(u64::MAX, 30_000_000_000, 30_000_000_000);
    let before = c;
    assert_eq!(
        c.sell(1_000, 100),
        Err(CurveError::OverflowOrUnderflowOccurred)
    );
    assert_eq!(c, before);
}

#[test]
fn sell_beyond_collected_funds_fails_with_arithmetic_error() {
    // The virtual reserve is pure seed: no real lamports were ever
    // collected, so nothing can be paid out.
    let mut c = seeded(1_000_000_000, 30_000_000_000, 0);
    let before = c;
    assert_eq!(
        c.sell(1_000_000, 100),
        Err(CurveError::OverflowOrUnderflowOccurred)
    );
    assert_eq!(c, before);
}

#[test]
fn buy_completes_curve_exactly_when_threshold_is_crossed() {
    let threshold: u64 = 2_000_000_000;
    let mut c = seeded(1_000_000_000, 30_000_000_000, 0);

    // First buy collects 990_000_000 real lamports: under the threshold.
    assert_eq!(c.buy(threshold, 1_000_000_000, 100), Ok(false));
    assert!(!c.is_completed);
    assert_eq!(c.actual_lamport_reserves, 990_000_000);

    // Second buy lifts the total to 2_079_000_000: crossing, so completed.
    assert_eq!(c.buy(threshold, 1_100_000_000, 100), Ok(true));
    assert!(c.is_completed);
    assert_eq!(c.virtual_token_reserves, 935_191_248);
    assert_eq!(c.virtual_lamport_reserves, 32_079_000_000);
    assert_eq!(c.actual_lamport_reserves, 2_079_000_000);
}

#[test]
fn completion_flag_never_reverts() {
    let mut c = seeded(1_000_000_000, 30_000_000_000, 0);
    c.buy(1, 1_000_000_000, 100).unwrap();
    assert!(c.is_completed);
    // Even a raw sell against the completed state leaves the flag set.
    c.sell(10_000_000, 100).unwrap();
    assert!(c.is_completed);
}
