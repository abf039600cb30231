use stable_swap_quote::get_amount_out;
use stable_swap_quote::ref_finance::errors::SwapError;

fn scenario_decimals() -> Vec<u8> {
    vec![6, 6, 18]
}

fn scenario_amounts() -> Vec<u128> {
    vec![719240775791, 485261247671, 990759998116457852477754]
}

#[test]
fn test_get_amount_out() {
    let result = get_amount_out(
        scenario_decimals(),
        scenario_amounts(),
        240,
        5,
        0,
        1,
        10000000000,
        1,
    );
    assert_eq!(result, Ok(9992301437));
}

#[test]
fn duplicate_token_rejected() {
    let result = get_amount_out(scenario_decimals(), scenario_amounts(), 240, 5, 1, 1, 10000000000, 1);
    assert_eq!(result, Err(SwapError::DuplicateToken));
    // The same rejection holds with other fees and amplification.
    let result = get_amount_out(scenario_decimals(), scenario_amounts(), 1, 0, 0, 0, 7, 1);
    assert_eq!(result, Err(SwapError::DuplicateToken));
}

#[test]
fn unknown_token_rejected() {
    let result = get_amount_out(scenario_decimals(), scenario_amounts(), 240, 5, 0, 3, 10000000000, 1);
    assert_eq!(result, Err(SwapError::UnknownToken));
    let result = get_amount_out(scenario_decimals(), scenario_amounts(), 240, 5, 9, 1, 10000000000, 1);
    assert_eq!(result, Err(SwapError::UnknownToken));
}

#[test]
fn invalid_decimal_rejected() {
    let result = get_amount_out(vec![6, 25, 18], scenario_amounts(), 240, 5, 0, 1, 10000000000, 1);
    assert_eq!(result, Err(SwapError::InvalidDecimal));
    let result = get_amount_out(vec![0, 6, 18], scenario_amounts(), 240, 5, 0, 1, 10000000000, 1);
    assert_eq!(result, Err(SwapError::InvalidDecimal));
}

#[test]
fn invalid_fee_rejected() {
    let result = get_amount_out(
        scenario_decimals(),
        scenario_amounts(),
        240,
        10000,
        0,
        1,
        10000000000,
        1,
    );
    assert_eq!(result, Err(SwapError::InvalidFee));
}

#[test]
fn invalid_amplification_rejected() {
    let result = get_amount_out(scenario_decimals(), scenario_amounts(), 0, 5, 0, 1, 10000000000, 1);
    assert_eq!(result, Err(SwapError::InvalidAmplification));
    let result = get_amount_out(
        scenario_decimals(),
        scenario_amounts(),
        1000001,
        5,
        0,
        1,
        10000000000,
        1,
    );
    assert_eq!(result, Err(SwapError::InvalidAmplification));
}

#[test]
fn arithmetic_overflow_on_normalization() {
    let result = get_amount_out(
        scenario_decimals(),
        vec![u128::MAX, 485261247671, 990759998116457852477754],
        240,
        5,
        0,
        1,
        10000000000,
        1,
    );
    assert_eq!(result, Err(SwapError::ArithmeticOverflow));
}

#[test]
fn output_monotone_in_amount_in() {
    // Zero fee, so the quote is the raw swap output.
    let out1 = get_amount_out(scenario_decimals(), scenario_amounts(), 240, 0, 0, 1, 10000000000, 1)
        .unwrap();
    let out2 = get_amount_out(scenario_decimals(), scenario_amounts(), 240, 0, 0, 1, 20000000000, 1)
        .unwrap();
    let out4 = get_amount_out(scenario_decimals(), scenario_amounts(), 240, 0, 0, 1, 40000000000, 1)
        .unwrap();
    assert!(out1 <= out2 && out2 <= out4);
    assert_eq!(out1, 9997300088);
    assert_eq!(out2, 19994335845);
    assert_eq!(out4, 39987567742);
}

#[test]
fn output_monotone_in_fee() {
    let mut prev = u128::MAX;
    for fee in [0u32, 5, 100, 9999] {
        let out = get_amount_out(scenario_decimals(), scenario_amounts(), 240, fee, 0, 1, 10000000000, 1)
            .unwrap();
        assert!(out <= prev);
        prev = out;
    }
    let out_low = get_amount_out(scenario_decimals(), scenario_amounts(), 240, 9999, 0, 1, 10000000000, 1)
        .unwrap();
    assert_eq!(out_low, 999730);
}

#[test]
fn output_monotone_in_amount_in_sweep() {
    // Zero fee; a denser sweep over four decades of input amounts.
    let mut prev: u128 = 0;
    let mut amount: u128 = 1000000000;
    while amount < 10000000000000 {
        let out = get_amount_out(scenario_decimals(), scenario_amounts(), 240, 0, 0, 1, amount, 1)
            .unwrap();
        assert!(prev <= out);
        prev = out;
        amount = amount * 3;
    }
}

#[test]
fn no_value_creation_round_trip() {
    // Zero fee; quoting does not mutate balances, so the second leg runs
    // over the unchanged invariant.
    let amount_in: u128 = 10000000000;
    let out1 = get_amount_out(scenario_decimals(), scenario_amounts(), 240, 0, 0, 1, amount_in, 1)
        .unwrap();
    let back = get_amount_out(scenario_decimals(), scenario_amounts(), 240, 0, 1, 0, out1, 1).unwrap();
    assert!(back <= amount_in);
    assert_eq!(out1, 9997300088);
    assert_eq!(back, 9999745703);
    // The same bound at a different amplification and over the
    // 18-decimal token, where only truncation can lose value.
    let out1 = get_amount_out(scenario_decimals(), scenario_amounts(), 1, 0, 2, 0, amount_in, 1)
        .unwrap();
    let back = get_amount_out(scenario_decimals(), scenario_amounts(), 1, 0, 0, 2, out1, 1).unwrap();
    assert!(back <= amount_in);
}
