use stable_swap_quote::ref_finance::StableSwapPool;
use stable_swap_quote::ref_finance::admin_fee::AdminFees;
use stable_swap_quote::ref_finance::errors::SwapError;
use stable_swap_quote::ref_finance::math::StableSwap;
use stable_swap_quote::ref_finance::utils::SwapVolume;
use stable_swap_quote::ref_finance::utils::U256;
use stable_swap_quote::ref_finance::utils::u128_ratio;
use stable_swap_quote::utils::amounts_to_c_amounts;

#[test]
fn u128_ratio_scales() {
    assert_eq!(u128_ratio(6, 3, 2), 9);
    assert_eq!(u128_ratio(10000000000, 5, 10000), 5000000);
    // The product needs more than 128 bits even though the result fits.
    assert_eq!(u128_ratio(u128::MAX, 4, 8), u128::MAX / 2);
}

#[test]
fn amounts_to_c_amounts_scales_each_token() {
    let c = amounts_to_c_amounts(&vec![1, 2, 3], &vec![6, 6, 18]).unwrap();
    assert_eq!(c, vec![1000000000000, 2000000000000, 3]);
    let c = amounts_to_c_amounts(&vec![5000000, 7], &vec![24, 18]).unwrap();
    assert_eq!(c, vec![5, 7]);
}

#[test]
fn amounts_to_c_amounts_overflow() {
    let r = amounts_to_c_amounts(&vec![u128::MAX, 2], &vec![6, 6]);
    assert_eq!(r, Err(SwapError::ArithmeticOverflow));
}

#[test]
fn normalize_round_trip_per_token() {
    let pool = StableSwapPool::new(vec![6, 24], 240, 5).unwrap();
    // Decimal at or below the target: lossless both ways.
    let c = pool.amount_to_c_amount(123456, 0).unwrap();
    assert_eq!(c, 123456000000000000);
    assert_eq!(pool.c_amount_to_amount(c, 0), Ok(123456));
    // Decimal above the target: normalization truncates.
    let c = pool.amount_to_c_amount(1000001, 1).unwrap();
    assert_eq!(c, 1);
    assert_eq!(pool.c_amount_to_amount(c, 1), Ok(1000000));
}

#[test]
fn pool_constructor_validates() {
    assert!(StableSwapPool::new(vec![6, 6], 240, 5).is_ok());
    assert_eq!(
        StableSwapPool::new(vec![6, 25], 240, 5).err(),
        Some(SwapError::InvalidDecimal)
    );
    assert_eq!(
        StableSwapPool::new(vec![6, 6], 0, 5).err(),
        Some(SwapError::InvalidAmplification)
    );
    assert_eq!(
        StableSwapPool::new(vec![6, 6], 240, 10000).err(),
        Some(SwapError::InvalidFee)
    );
}

#[test]
fn amp_factor_interpolates() {
    // Halfway up the ramp.
    let s = StableSwap::new(100, 200, 50, 0, 100);
    assert_eq!(s.compute_amp_factor(), Some(150));
    // Ramp down works symmetrically.
    let s = StableSwap::new(200, 100, 50, 0, 100);
    assert_eq!(s.compute_amp_factor(), Some(150));
    // At or before the start: the initial coefficient.
    let s = StableSwap::new(100, 200, 0, 0, 100);
    assert_eq!(s.compute_amp_factor(), Some(100));
    // At or after the stop: the target coefficient.
    let s = StableSwap::new(100, 200, 100, 0, 100);
    assert_eq!(s.compute_amp_factor(), Some(200));
    // Before the ramp start: the initial coefficient.
    let s = StableSwap::new(100, 200, 3, 7, 100);
    assert_eq!(s.compute_amp_factor(), Some(100));
}

#[test]
fn invariant_of_equal_balances_is_their_sum() {
    let s = StableSwap::new(1, 1, 1, 0, 0);
    let d = s.compute_d(&vec![1000000, 1000000]).unwrap();
    assert_eq!(d, U256 { hi: 0, lo: 2000000 });
    let d = s.compute_d(&vec![0, 0]).unwrap();
    assert_eq!(d, U256 { hi: 0, lo: 0 });
}

#[test]
fn invariant_solver_can_fail_to_converge() {
    let s = StableSwap::new(240, 240, 1, 0, 0);
    let r = s.compute_d(&vec![4294967294, 18014398509481984, 4096]);
    assert_eq!(r, Err(SwapError::NotConverged));
}

#[test]
fn swap_result_accounts_fees() {
    let decimals: Vec<u8> = vec![6, 6, 18];
    let amounts: Vec<u128> = vec![719240775791, 485261247671, 990759998116457852477754];
    let mut pool = StableSwapPool::new(decimals.clone(), 240, 5).unwrap();
    pool.c_amounts = amounts_to_c_amounts(&amounts, &decimals).unwrap();
    // Admin fee of 20% of the trade fee.
    let fees = AdminFees::new(2000);
    let result = pool.internal_get_return(0, 10000000000, 1, &fees, 1).unwrap();
    assert_eq!(result.fee, 4998650044021789902);
    assert_eq!(result.admin_fee, 999730008804357980);
    assert_eq!(result.amount_swapped, 9992301437999558015780);
    assert_eq!(result.new_source_amount, 729240775791000000000000);
    assert_eq!(result.new_destination_amount, 475267946502991637626240);
}

#[test]
fn pool_swap_by_index() {
    let decimals: Vec<u8> = vec![6, 6, 18];
    let amounts: Vec<u128> = vec![719240775791, 485261247671, 990759998116457852477754];
    let mut pool = StableSwapPool::new(decimals.clone(), 240, 5).unwrap();
    pool.c_amounts = amounts_to_c_amounts(&amounts, &decimals).unwrap();
    let fees = AdminFees::new(0);
    assert_eq!(pool.swap(0, 10000000000, 1, &fees, 1), Ok(9992301437));
    assert_eq!(pool.swap(2, 1, 2, &fees, 1), Err(SwapError::DuplicateToken));
    assert_eq!(pool.swap(0, 1, 5, &fees, 1), Err(SwapError::UnknownToken));
}

#[test]
fn pool_quote_reads_the_clock() {
    let decimals: Vec<u8> = vec![6, 6, 18];
    let amounts: Vec<u128> = vec![719240775791, 485261247671, 990759998116457852477754];
    let mut pool = StableSwapPool::new(decimals.clone(), 100, 0).unwrap();
    pool.c_amounts = amounts_to_c_amounts(&amounts, &decimals).unwrap();
    // Ramp the amplification from 100 to 200 between times 0 and 100.
    pool.target_amp_factor = 200;
    pool.init_amp_time = 0;
    pool.stop_amp_time = 100;
    let fees = AdminFees::new(0);
    // At the ramp start the quote uses the initial coefficient, halfway
    // the interpolated one, at or after the stop the target.
    assert_eq!(pool.swap(0, 10000000000, 1, &fees, 0), Ok(9993528316));
    assert_eq!(pool.swap(0, 10000000000, 1, &fees, 50), Ok(9995682458));
    assert_eq!(pool.swap(0, 10000000000, 1, &fees, 100), Ok(9996760685));
    assert_eq!(pool.swap(0, 10000000000, 1, &fees, 777), Ok(9996760685));
}

#[test]
fn swap_volume_default_is_zero() {
    let v = SwapVolume::default();
    assert_eq!(v.input, 0);
    assert_eq!(v.output, 0);
}
