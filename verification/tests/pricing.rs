use fair_launch_solana_program::curve::BondingCurve;
use fair_launch_solana_program::errors::CurveError;

fn pool(virtual_token_reserves: u64, virtual_lamport_reserves: u64) -> BondingCurve {
    BondingCurve {
        virtual_token_reserves,
        virtual_lamport_reserves,
        actual_lamport_reserves: 0,
        is_completed: false,
    }
}

#[test]
fn buy_quote_matches_reference_scenario() {
    // One-percent fee on a large buy against seeded reserves: the fee is
    // exactly one percent of the input and the token output is the
    // constant-product value truncated in the curve's favor.
    let c = pool(1_000_000_000, 30_000_000_000);
    let (out, fee) = c.calc_amount_out(1_000_000_000, true, 100).unwrap();
    assert_eq!(fee, 10_000_000);
    assert_eq!(out, 31_945_788);
}

#[test]
fn buy_quote_pays_less_than_real_valued_formula() {
    // The exact real-valued output here is 31_945_788.96...; the curve
    // truncates rather than rounds.
    let c = pool(1_000_000_000, 30_000_000_000);
    let (out, _) = c.calc_amount_out(1_000_000_000, true, 100).unwrap();
    assert!(out < 31_945_789);
}

#[test]
fn sell_quote_matches_reference_scenario() {
    let c = pool(1_000_000_000, 30_000_000_000);
    let (out, fee) = c.calc_amount_out(1_000_000, false, 100).unwrap();
    assert_eq!(out, 29_970_029);
    assert_eq!(fee, 299_700);
}

#[test]
fn zero_amount_quotes_zero_output() {
    let c = pool(1_000_000_000, 30_000_000_000);
    assert_eq!(c.calc_amount_out(0, true, 100), Ok((0, 0)));
    assert_eq!(c.calc_amount_out(0, false, 100), Ok((0, 0)));
}

#[test]
fn dust_buy_rounds_to_zero_output() {
    // A one-lamport buy against a deep pool buys no whole token.
    let c = pool(1_000_000_000, 30_000_000_000);
    assert_eq!(c.calc_amount_out(1, true, 100), Ok((0, 0)));
}

#[test]
fn zero_token_reserve_fails_fast() {
    let c = pool(0, 30_000_000_000);
    assert_eq!(c.calc_amount_out(5, true, 100), Err(CurveError::ZeroReserves));
    assert_eq!(c.calc_amount_out(5, false, 100), Err(CurveError::ZeroReserves));
}

#[test]
fn zero_lamport_reserve_fails_fast() {
    let c = pool(1_000_000_000, 0);
    assert_eq!(c.calc_amount_out(5, true, 100), Err(CurveError::ZeroReserves));
    assert_eq!(c.calc_amount_out(5, false, 100), Err(CurveError::ZeroReserves));
}

#[test]
fn hundred_percent_fee_consumes_whole_input() {
    let c = pool(1_000_000_000, 30_000_000_000);
    assert_eq!(c.calc_amount_out(1_000, true, 10_000), Ok((0, 1_000)));
}

#[test]
fn fee_above_hundred_percent_is_arithmetic_error() {
    let c = pool(1_000_000_000, 30_000_000_000);
    assert_eq!(
        c.calc_amount_out(1_000, true, 20_000),
        Err(CurveError::OverflowOrUnderflowOccurred)
    );
    assert_eq!(
        c.calc_amount_out(1_000, false, 20_000),
        Err(CurveError::OverflowOrUnderflowOccurred)
    );
}

#[test]
fn quote_does_not_touch_reserves() {
    let c = pool(1_000_000_000, 30_000_000_000);
    let before = c;
    let _ = c.calc_amount_out(1_000_000_000, true, 100);
    assert_eq!(c, before);
}
