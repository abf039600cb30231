use vstd::prelude::*;

pub mod ref_finance;
pub mod utils;

use crate::ref_finance::StableSwapPool;
use crate::ref_finance::admin_fee::AdminFees;
use crate::ref_finance::errors::SwapError;
use crate::ref_finance::math::MAX_AMP;
use crate::ref_finance::math::MIN_AMP;
use crate::ref_finance::spec_normalize;
use crate::ref_finance::spec_pool_swap;
use crate::ref_finance::utils::FEE_DIVISOR;
use crate::utils::amounts_to_c_amounts;
use crate::utils::decimals_valid;
use crate::utils::normalize_all_fits;

verus! {

/// The comparable-precision balances of the given raw amounts.
pub open spec fn spec_c_amounts(amounts: Seq<u128>, decimals: Seq<u8>) -> Seq<u128> {
    Seq::new(amounts.len(), |i: int| spec_normalize(amounts[i] as int, decimals[i] as int) as u128)
}

/// The whole quote over plain values: pool validation, normalization
/// of the balances, and one swap with no admin fee and a flat
/// amplification ramp.
pub open spec fn spec_get_amount_out(
    token_decimals: Seq<u8>,
    amounts: Seq<u128>,
    amp_factor: u128,
    total_fee: u32,
    token_in_index: int,
    token_out_index: int,
    amount_in: u128,
    now: int,
) -> Result<int, SwapError> {
    if !decimals_valid(token_decimals) {
        Err(SwapError::InvalidDecimal)
    } else if !(MIN_AMP <= amp_factor <= MAX_AMP) {
        Err(SwapError::InvalidAmplification)
    } else if total_fee >= FEE_DIVISOR {
        Err(SwapError::InvalidFee)
    } else if !normalize_all_fits(amounts, token_decimals) {
        Err(SwapError::ArithmeticOverflow)
    } else {
        spec_pool_swap(
            token_decimals,
            spec_c_amounts(amounts, token_decimals),
            total_fee as int,
            amp_factor as int,
            amp_factor as int,
            0,
            0,
            token_in_index,
            amount_in as int,
            token_out_index,
            0,
            now,
        )
    }
}

/// Quote the output amount of swapping `amount_in` of the token at
/// `token_in_index` into the token at `token_out_index` at time `now`,
/// for a pool with the given decimals, raw balances, amplification
/// coefficient and total fee in basis points.
pub fn get_amount_out(
    token_decimals: Vec<u8>,
    amounts: Vec<u128>,
    amp_factor: u128,
    total_fee: u32,
    token_in_index: usize,
    token_out_index: usize,
    amount_in: u128,
    now: u64,
) -> (r: Result<u128, SwapError>)
    requires
        amounts@.len() == token_decimals@.len(),
    ensures
        match r {
            Ok(v) => spec_get_amount_out(
                token_decimals@,
                amounts@,
                amp_factor,
                total_fee,
                token_in_index as int,
                token_out_index as int,
                amount_in,
                now as int,
            ) == Ok::<int, SwapError>(v as int),
            Err(e) => spec_get_amount_out(
                token_decimals@,
                amounts@,
                amp_factor,
                total_fee,
                token_in_index as int,
                token_out_index as int,
                amount_in,
                now as int,
            ) == Err::<int, SwapError>(e),
        },
        !decimals_valid(token_decimals@) ==> r == Err::<u128, SwapError>(SwapError::InvalidDecimal),
        decimals_valid(token_decimals@) && !(MIN_AMP <= amp_factor <= MAX_AMP) ==> r == Err::<
            u128,
            SwapError,
        >(SwapError::InvalidAmplification),
        decimals_valid(token_decimals@) && MIN_AMP <= amp_factor <= MAX_AMP && total_fee
            >= FEE_DIVISOR ==> r == Err::<u128, SwapError>(SwapError::InvalidFee),
{
    let mut pool = match StableSwapPool::new(token_decimals, amp_factor, total_fee) {
        Ok(p) => p,
        Err(e) => {
            return Err(e);
        },
    };
    let c_amounts = match amounts_to_c_amounts(&amounts, &pool.token_decimals) {
        Ok(c) => c,
        Err(e) => {
            return Err(e);
        },
    };
    proof {
        assert(c_amounts@ =~= spec_c_amounts(amounts@, pool.token_decimals@));
    }
    pool.c_amounts = c_amounts;
    let fees = AdminFees::new(0);
    pool.swap(token_in_index, amount_in, token_out_index, &fees, now)
}

} // verus!
