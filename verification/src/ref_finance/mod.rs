use vstd::prelude::*;
use vstd::arithmetic::div_mod::lemma_div_multiples_vanish;
use vstd::arithmetic::div_mod::lemma_fundamental_div_mod;

pub mod admin_fee;
pub mod errors;
pub mod math;
pub mod utils;

use crate::ref_finance::admin_fee::AdminFees;
use crate::ref_finance::errors::SwapError;
use crate::ref_finance::math::Fees;
use crate::ref_finance::math::MAX_AMP;
use crate::ref_finance::math::MIN_AMP;
use crate::ref_finance::math::StableSwap;
use crate::ref_finance::math::SwapResult;
use crate::ref_finance::math::res_swap_matches;
use crate::ref_finance::math::spec_swap_to;
use crate::ref_finance::utils::FEE_DIVISOR;
use crate::ref_finance::utils::pow2_128;
use crate::utils::decimals_valid;
use crate::utils::normalize_all_fits;

verus! {

pub const MIN_DECIMAL: u8 = 1;
pub const MAX_DECIMAL: u8 = 24;
pub const TARGET_DECIMAL: u8 = 18;
pub const MIN_RESERVE: u128 = 1_000_000_000_000_000;

/// 10^e as a mathematical integer.
pub open spec fn spec_pow10(e: int) -> int
    decreases e,
{
    if e <= 0 {
        1
    } else {
        10 * spec_pow10(e - 1)
    }
}

pub proof fn lemma_pow10_23()
    ensures
        spec_pow10(23) == 100_000_000_000_000_000_000_000int,
{
    reveal_with_fuel(spec_pow10, 25);
}

/// 10^e for the decimal offsets a valid pool can produce.
pub fn pow10(e: u32) -> (r: u128)
    requires
        e <= 23,
    ensures
        r == spec_pow10(e as int),
        r >= 1,
{
    proof {
        lemma_pow10_23();
        lemma_pow10_monotone(e as int, 23);
    }
    let mut r: u128 = 1;
    let mut i: u32 = 0;
    while i < e
        invariant
            i <= e,
            e <= 23,
            r == spec_pow10(i as int),
        decreases e - i,
    {
        proof {
            lemma_pow10_23();
            lemma_pow10_monotone(i as int + 1, 23);
        }
        r = r * 10;
        i = i + 1;
    }
    proof {
        lemma_pow10_pos(e as int);
    }
    r
}

pub proof fn lemma_pow10_pos(e: int)
    ensures
        spec_pow10(e) >= 1,
    decreases e,
{
    if e > 0 {
        lemma_pow10_pos(e - 1);
    }
}

pub proof fn lemma_pow10_monotone(a: int, b: int)
    requires
        a <= b,
    ensures
        spec_pow10(a) <= spec_pow10(b),
    decreases b,
{
    if a < b && b > 0 {
        lemma_pow10_monotone(a, b - 1);
        lemma_pow10_pos(b - 1);
    }
}

/// A raw amount of a token with the given decimal exponent, brought to
/// the common comparable precision: exact scaling up for decimals at or
/// below the target, truncating scaling down above it.
pub open spec fn spec_normalize(amount: int, decimal: int) -> int {
    if decimal <= TARGET_DECIMAL as int {
        amount * spec_pow10(TARGET_DECIMAL as int - decimal)
    } else {
        amount / spec_pow10(decimal - TARGET_DECIMAL as int)
    }
}

/// A comparable-precision amount brought back to the token's native
/// precision: truncating scaling down for decimals at or below the
/// target, exact scaling up above it.
pub open spec fn spec_denormalize(c_amount: int, decimal: int) -> int {
    if decimal <= TARGET_DECIMAL as int {
        c_amount / spec_pow10(TARGET_DECIMAL as int - decimal)
    } else {
        c_amount * spec_pow10(decimal - TARGET_DECIMAL as int)
    }
}

/// Round-trip law of the decimal normalizer: scaling an amount to the
/// comparable precision and back never gains value; it is lossless
/// exactly for tokens whose decimal is at or below the target, while a
/// decimal above the target has amounts it truncates.
pub proof fn lemma_normalize_round_trip(amount: int, decimal: int)
    requires
        0 <= amount,
        MIN_DECIMAL as int <= decimal <= MAX_DECIMAL as int,
    ensures
        spec_denormalize(spec_normalize(amount, decimal), decimal) <= amount,
        decimal <= TARGET_DECIMAL as int ==> spec_denormalize(
            spec_normalize(amount, decimal),
            decimal,
        ) == amount,
        decimal > TARGET_DECIMAL as int ==> spec_denormalize(spec_normalize(1, decimal), decimal)
            < 1,
{
    if decimal <= TARGET_DECIMAL as int {
        let f = spec_pow10(TARGET_DECIMAL as int - decimal);
        lemma_pow10_pos(TARGET_DECIMAL as int - decimal);
        lemma_div_multiples_vanish(amount, f);
        assert(spec_normalize(amount, decimal) == amount * f);
        vstd::arithmetic::mul::lemma_mul_is_commutative(amount, f);
        assert(spec_denormalize(f * amount, decimal) == (f * amount) / f);
    } else {
        let f = spec_pow10(decimal - TARGET_DECIMAL as int);
        lemma_pow10_pos(decimal - TARGET_DECIMAL as int);
        lemma_fundamental_div_mod(amount, f);
        vstd::arithmetic::div_mod::lemma_mod_bound(amount, f);
        assert(f * (amount / f) <= amount);
        vstd::arithmetic::mul::lemma_mul_is_commutative(amount / f, f);
        assert(spec_denormalize(spec_normalize(amount, decimal), decimal) == (amount / f) * f);
        lemma_pow10_monotone(1, decimal - TARGET_DECIMAL as int);
        assert(f >= 10);
        assert(1int / f == 0) by {
            vstd::arithmetic::div_mod::lemma_basic_div(1int, f);
        }
    }
}

/// A StableSwap pool configuration with its comparable balances.
pub struct StableSwapPool {
    /// Each token's decimal exponent.
    pub token_decimals: Vec<u8>,
    /// Token amounts in comparable decimal.
    pub c_amounts: Vec<u128>,
    /// Fee charged for swap (gets divided by FEE_DIVISOR).
    pub total_fee: u32,
    /// Initial amplification coefficient.
    pub init_amp_factor: u128,
    /// Target for ramping up amplification coefficient.
    pub target_amp_factor: u128,
    /// Initial amplification time.
    pub init_amp_time: u64,
    /// Stop ramp up amplification time.
    pub stop_amp_time: u64,
}

/// One pool swap quote over plain values: validation of the indices,
/// normalization of the input amount, the swap over the invariant, and
/// denormalization of the net output amount.
pub open spec fn spec_pool_swap(
    decimals: Seq<u8>,
    c_amounts: Seq<u128>,
    total_fee: int,
    init_amp: int,
    target_amp: int,
    t0: int,
    t1: int,
    token_in: int,
    amount_in: int,
    token_out: int,
    admin_bps: int,
    now: int,
) -> Result<int, SwapError> {
    if token_in == token_out {
        Err(SwapError::DuplicateToken)
    } else if token_in >= c_amounts.len() || token_out >= c_amounts.len() {
        Err(SwapError::UnknownToken)
    } else {
        let norm = spec_normalize(amount_in, decimals[token_in] as int);
        if norm >= pow2_128() {
            Err(SwapError::ArithmeticOverflow)
        } else {
            match spec_swap_to(
                c_amounts,
                token_in,
                norm,
                token_out,
                total_fee,
                admin_bps,
                init_amp,
                target_amp,
                now,
                t0,
                t1,
            ) {
                Err(e) => Err(e),
                Ok(t) => {
                    let denorm = spec_denormalize(t.0, decimals[token_out] as int);
                    if denorm >= pow2_128() {
                        Err(SwapError::ArithmeticOverflow)
                    } else {
                        Ok(denorm)
                    }
                },
            }
        }
    }
}

impl StableSwapPool {
    /// The configuration invariant every constructed pool satisfies.
    pub open spec fn wf(self) -> bool {
        &&& self.token_decimals@.len() == self.c_amounts@.len()
        &&& decimals_valid(self.token_decimals@)
        &&& self.total_fee < FEE_DIVISOR
        &&& MIN_AMP <= self.init_amp_factor <= MAX_AMP
        &&& MIN_AMP <= self.target_amp_factor <= MAX_AMP
    }

    /// Validating constructor: every decimal within the accepted range,
    /// the amplification coefficient within its bounds, the total fee
    /// strictly below the divisor; the pool starts with zero balances
    /// and a flat amplification ramp.
    #[verifier::loop_isolation(false)]
    pub fn new(token_decimals: Vec<u8>, amp_factor: u128, total_fee: u32) -> (r: Result<
        Self,
        SwapError,
    >)
        ensures
            match r {
                Ok(p) => {
                    &&& decimals_valid(token_decimals@)
                    &&& MIN_AMP <= amp_factor <= MAX_AMP
                    &&& total_fee < FEE_DIVISOR
                    &&& p.wf()
                    &&& p.token_decimals@ == token_decimals@
                    &&& p.c_amounts@.len() == token_decimals@.len()
                    &&& (forall|i: int|
                        0 <= i < p.c_amounts@.len() ==> #[trigger] p.c_amounts@[i] == 0)
                    &&& p.total_fee == total_fee
                    &&& p.init_amp_factor == amp_factor
                    &&& p.target_amp_factor == amp_factor
                    &&& p.init_amp_time == 0
                    &&& p.stop_amp_time == 0
                },
                Err(e) => {
                    ||| (e == SwapError::InvalidDecimal && !decimals_valid(token_decimals@))
                    ||| (e == SwapError::InvalidAmplification && decimals_valid(token_decimals@)
                        && !(MIN_AMP <= amp_factor <= MAX_AMP))
                    ||| (e == SwapError::InvalidFee && decimals_valid(token_decimals@) && MIN_AMP
                        <= amp_factor <= MAX_AMP && total_fee >= FEE_DIVISOR)
                },
            },
    {
        let n = token_decimals.len();
        let mut i: usize = 0;
        while i < n
            invariant
                i <= n,
                forall|j: int|
                    0 <= j < i ==> MIN_DECIMAL <= #[trigger] token_decimals@[j] <= MAX_DECIMAL,
            decreases n - i,
        {
            let d = token_decimals[i];
            if d > MAX_DECIMAL || d < MIN_DECIMAL {
                return Err(SwapError::InvalidDecimal);
            }
            i = i + 1;
        }
        if !(amp_factor >= MIN_AMP && amp_factor <= MAX_AMP) {
            return Err(SwapError::InvalidAmplification);
        }
        if total_fee >= FEE_DIVISOR {
            return Err(SwapError::InvalidFee);
        }
        let mut c_amounts: Vec<u128> = Vec::new();
        let mut k: usize = 0;
        while k < n
            invariant
                k <= n,
                c_amounts@.len() == k,
                forall|j: int| 0 <= j < k ==> #[trigger] c_amounts@[j] == 0,
            decreases n - k,
        {
            c_amounts.push(0);
            k = k + 1;
        }
        Ok(
            StableSwapPool {
                token_decimals,
                c_amounts,
                total_fee,
                init_amp_factor: amp_factor,
                target_amp_factor: amp_factor,
                init_amp_time: 0,
                stop_amp_time: 0,
            },
        )
    }

    /// All raw token amounts brought to the comparable precision, one
    /// entry per token of this pool.
    pub fn amounts_to_c_amounts(&self, amounts: &Vec<u128>) -> (r: Result<Vec<u128>, SwapError>)
        requires
            self.wf(),
            amounts@.len() == self.token_decimals@.len(),
        ensures
            match r {
                Ok(c) => normalize_all_fits(amounts@, self.token_decimals@) && c@.len()
                    == amounts@.len() && (forall|i: int|
                    0 <= i < amounts@.len() ==> #[trigger] c@[i] == spec_normalize(
                        amounts@[i] as int,
                        self.token_decimals@[i] as int,
                    )),
                Err(e) => e == SwapError::ArithmeticOverflow && !normalize_all_fits(
                    amounts@,
                    self.token_decimals@,
                ),
            },
    {
        crate::utils::amounts_to_c_amounts(amounts, &self.token_decimals)
    }

    /// One raw token amount brought to the comparable precision.
    pub fn amount_to_c_amount(&self, amount: u128, index: usize) -> (r: Result<u128, SwapError>)
        requires
            self.wf(),
            index < self.token_decimals@.len(),
        ensures
            match r {
                Ok(v) => spec_normalize(amount as int, self.token_decimals@[index as int] as int)
                    < pow2_128() && v == spec_normalize(
                    amount as int,
                    self.token_decimals@[index as int] as int,
                ),
                Err(e) => e == SwapError::ArithmeticOverflow && spec_normalize(
                    amount as int,
                    self.token_decimals@[index as int] as int,
                ) >= pow2_128(),
            },
    {
        let d = self.token_decimals[index];
        if d <= TARGET_DECIMAL {
            let f = pow10((TARGET_DECIMAL - d) as u32);
            match amount.checked_mul(f) {
                Some(v) => Ok(v),
                None => Err(SwapError::ArithmeticOverflow),
            }
        } else {
            let f = pow10((d - TARGET_DECIMAL) as u32);
            Ok(amount / f)
        }
    }

    /// One comparable-precision amount brought back to the token's
    /// native precision.
    pub fn c_amount_to_amount(&self, c_amount: u128, index: usize) -> (r: Result<u128, SwapError>)
        requires
            self.wf(),
            index < self.token_decimals@.len(),
        ensures
            match r {
                Ok(v) => spec_denormalize(
                    c_amount as int,
                    self.token_decimals@[index as int] as int,
                ) < pow2_128() && v == spec_denormalize(
                    c_amount as int,
                    self.token_decimals@[index as int] as int,
                ),
                Err(e) => e == SwapError::ArithmeticOverflow && spec_denormalize(
                    c_amount as int,
                    self.token_decimals@[index as int] as int,
                ) >= pow2_128(),
            },
    {
        let d = self.token_decimals[index];
        if d <= TARGET_DECIMAL {
            let f = pow10((TARGET_DECIMAL - d) as u32);
            Ok(c_amount / f)
        } else {
            let f = pow10((d - TARGET_DECIMAL) as u32);
            match c_amount.checked_mul(f) {
                Some(v) => Ok(v),
                None => Err(SwapError::ArithmeticOverflow),
            }
        }
    }

    /// The invariant solver of this pool, quoted at the caller-supplied
    /// timestamp.
    pub fn get_invariant(&self, now: u64) -> (r: StableSwap)
        ensures
            r.initial_amp_factor == self.init_amp_factor,
            r.target_amp_factor == self.target_amp_factor,
            r.current_ts == now,
            r.start_ramp_ts == self.init_amp_time,
            r.stop_ramp_ts == self.stop_amp_time,
    {
        StableSwap::new(
            self.init_amp_factor,
            self.target_amp_factor,
            now,
            self.init_amp_time,
            self.stop_amp_time,
        )
    }

    /// The swap result over comparable balances, before the output is
    /// brought back to native precision.
    pub open spec fn spec_internal_get_return(
        self,
        token_in: int,
        amount_in: int,
        token_out: int,
        admin_bps: int,
        now: int,
    ) -> Result<(int, int, int, int, int), SwapError> {
        let norm = spec_normalize(amount_in, self.token_decimals@[token_in] as int);
        if norm >= pow2_128() {
            Err(SwapError::ArithmeticOverflow)
        } else {
            spec_swap_to(
                self.c_amounts@,
                token_in,
                norm,
                token_out,
                self.total_fee as int,
                admin_bps,
                self.init_amp_factor as int,
                self.target_amp_factor as int,
                now,
                self.init_amp_time as int,
                self.stop_amp_time as int,
            )
        }
    }

    /// Returns number of tokens in outcome, given amount.
    /// Tokens are provided as indexes into the token list of the pool.
    pub fn internal_get_return(
        &self,
        token_in: usize,
        amount_in: u128,
        token_out: usize,
        fees: &AdminFees,
        now: u64,
    ) -> (r: Result<SwapResult, SwapError>)
        requires
            self.wf(),
            token_in < self.c_amounts@.len(),
            token_out < self.c_amounts@.len(),
            fees.admin_fee_bps <= FEE_DIVISOR,
        ensures
            res_swap_matches(
                r,
                self.spec_internal_get_return(
                    token_in as int,
                    amount_in as int,
                    token_out as int,
                    fees.admin_fee_bps as int,
                    now as int,
                ),
            ),
    {
        let c_amount_in = match self.amount_to_c_amount(amount_in, token_in) {
            Ok(v) => v,
            Err(e) => {
                return Err(e);
            },
        };
        let invariant_calc = self.get_invariant(now);
        let full_fees = Fees::new(self.total_fee, fees);
        invariant_calc.swap_to(token_in, c_amount_in, token_out, &self.c_amounts, &full_fees)
    }

    /// The full quote of this pool for one swap, by token indices.
    pub open spec fn spec_swap(
        self,
        token_in: int,
        amount_in: int,
        token_out: int,
        admin_bps: int,
        now: int,
    ) -> Result<int, SwapError> {
        spec_pool_swap(
            self.token_decimals@,
            self.c_amounts@,
            self.total_fee as int,
            self.init_amp_factor as int,
            self.target_amp_factor as int,
            self.init_amp_time as int,
            self.stop_amp_time as int,
            token_in,
            amount_in,
            token_out,
            admin_bps,
            now,
        )
    }

    /// Quote how much of the output token a swap of `amount_in` of the
    /// input token would deliver at time `now`, without mutating any
    /// balance. The input and output token must differ and both indices
    /// must name a token of the pool.
    pub fn swap(
        &self,
        token_in: usize,
        amount_in: u128,
        token_out: usize,
        fees: &AdminFees,
        now: u64,
    ) -> (r: Result<u128, SwapError>)
        requires
            self.wf(),
            fees.admin_fee_bps <= FEE_DIVISOR,
        ensures
            match r {
                Ok(v) => self.spec_swap(
                    token_in as int,
                    amount_in as int,
                    token_out as int,
                    fees.admin_fee_bps as int,
                    now as int,
                ) == Ok::<int, SwapError>(v as int),
                Err(e) => self.spec_swap(
                    token_in as int,
                    amount_in as int,
                    token_out as int,
                    fees.admin_fee_bps as int,
                    now as int,
                ) == Err::<int, SwapError>(e),
            },
            token_in == token_out ==> r == Err::<u128, SwapError>(SwapError::DuplicateToken),
            token_in != token_out && (token_in >= self.c_amounts@.len() || token_out
                >= self.c_amounts@.len()) ==> r == Err::<u128, SwapError>(SwapError::UnknownToken),
    {
        if token_in == token_out {
            return Err(SwapError::DuplicateToken);
        }
        let n = self.c_amounts.len();
        if token_in >= n || token_out >= n {
            return Err(SwapError::UnknownToken);
        }
        let result = match self.internal_get_return(token_in, amount_in, token_out, fees, now) {
            Ok(v) => v,
            Err(e) => {
                return Err(e);
            },
        };
        self.c_amount_to_amount(result.amount_swapped, token_out)
    }
}

} // verus!
