use vstd::prelude::*;
use crate::ref_finance::errors::SwapError;
use crate::ref_finance::utils::pow2_128;
use crate::ref_finance::MAX_DECIMAL;
use crate::ref_finance::MIN_DECIMAL;
use crate::ref_finance::TARGET_DECIMAL;
use crate::ref_finance::pow10;
use crate::ref_finance::spec_normalize;

verus! {

/// Whether every token decimal lies in the accepted range.
pub open spec fn decimals_valid(decimals: Seq<u8>) -> bool {
    forall|i: int|
        0 <= i < decimals.len() ==> MIN_DECIMAL <= #[trigger] decimals[i] <= MAX_DECIMAL
}

/// Whether every amount, once normalized, still fits in 128 bits.
pub open spec fn normalize_all_fits(amounts: Seq<u128>, decimals: Seq<u8>) -> bool {
    forall|i: int|
        0 <= i < amounts.len() ==> #[trigger] spec_normalize(amounts[i] as int, decimals[i] as int)
            < pow2_128()
}

/// Converts raw per-token amounts to the common comparable precision,
/// one entry per token decimal.
pub fn amounts_to_c_amounts(amounts: &Vec<u128>, token_decimals: &Vec<u8>) -> (r: Result<
    Vec<u128>,
    SwapError,
>)
    requires
        amounts@.len() == token_decimals@.len(),
        decimals_valid(token_decimals@),
    ensures
        match r {
            Ok(c) => normalize_all_fits(amounts@, token_decimals@) && c@.len() == amounts@.len()
                && (forall|i: int|
                0 <= i < amounts@.len() ==> #[trigger] c@[i] == spec_normalize(
                    amounts@[i] as int,
                    token_decimals@[i] as int,
                )),
            Err(e) => e == SwapError::ArithmeticOverflow && !normalize_all_fits(
                amounts@,
                token_decimals@,
            ),
        },
{
    let n = amounts.len();
    let mut c: Vec<u128> = Vec::new();
    let mut i: usize = 0;
    while i < n
        invariant
            i <= n,
            n == amounts@.len(),
            n == token_decimals@.len(),
            decimals_valid(token_decimals@),
            c@.len() == i,
            forall|j: int|
                0 <= j < i ==> #[trigger] c@[j] == spec_normalize(
                    amounts@[j] as int,
                    token_decimals@[j] as int,
                ),
        decreases n - i,
    {
        let d = token_decimals[i];
        let a = amounts[i];
        if d <= TARGET_DECIMAL {
            let f = pow10((TARGET_DECIMAL - d) as u32);
            match a.checked_mul(f) {
                Some(v) => c.push(v),
                None => {
                    assert(spec_normalize(amounts@[i as int] as int, token_decimals@[i as int] as int)
                        >= pow2_128());
                    return Err(SwapError::ArithmeticOverflow);
                },
            }
        } else {
            let f = pow10((d - TARGET_DECIMAL) as u32);
            c.push(a / f);
        }
        i = i + 1;
    }
    assert forall|j: int| 0 <= j < amounts@.len() implies #[trigger] spec_normalize(
        amounts@[j] as int,
        token_decimals@[j] as int,
    ) < pow2_128() by {
        assert(c@[j] == spec_normalize(amounts@[j] as int, token_decimals@[j] as int));
    }
    Ok(c)
}

} // verus!
