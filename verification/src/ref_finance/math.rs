use vstd::prelude::*;
use vstd::arithmetic::div_mod::lemma_div_is_ordered;
use vstd::arithmetic::div_mod::lemma_div_multiples_vanish;
use vstd::arithmetic::mul::lemma_mul_inequality;
use vstd::arithmetic::mul::lemma_mul_upper_bound;
use crate::ref_finance::admin_fee::AdminFees;
use crate::ref_finance::errors::SwapError;
use crate::ref_finance::utils::FEE_DIVISOR;
use crate::ref_finance::utils::U256;
use crate::ref_finance::utils::pow2_128;
use crate::ref_finance::utils::pow2_256;
use crate::ref_finance::utils::u128_ratio;
use crate::ref_finance::utils::u256_add;
use crate::ref_finance::utils::u256_div;
use crate::ref_finance::utils::u256_mul;
use crate::ref_finance::utils::u256_sub;
use crate::ref_finance::utils::u256_within_one;

verus! {

pub const MIN_AMP: u128 = 1;
pub const MAX_AMP: u128 = 1_000_000;

/// Iteration ceiling of both Newton-Raphson solvers.
pub const MAX_ITERATIONS: u32 = 256;

// ---------------------------------------------------------------------
// Small arithmetic helpers.
// ---------------------------------------------------------------------

pub proof fn lemma_u128_mul_lt_p256(a: int, b: int)
    requires
        0 <= a < pow2_128(),
        0 <= b < pow2_128(),
    ensures
        a * b < pow2_256(),
{
    lemma_mul_upper_bound(a, pow2_128() - 1, b, pow2_128() - 1);
    assert((0x100000000000000000000000000000000int - 1) * (0x100000000000000000000000000000000int
        - 1) < 0x10000000000000000000000000000000000000000000000000000000000000000int)
        by (nonlinear_arith);
}

/// A fraction of a non-negative amount, with a numerator at most the
/// denominator, never exceeds the amount.
pub proof fn lemma_ratio_le(a: int, num: int, denom: int)
    requires
        0 <= a,
        0 <= num <= denom,
        0 < denom,
    ensures
        0 <= a * num / denom <= a,
{
    lemma_mul_inequality(num, denom, a);
    lemma_div_is_ordered(a * num, a * denom, denom);
    lemma_div_multiples_vanish(a, denom);
    vstd::arithmetic::div_mod::lemma_div_pos_is_pos(a * num, denom);
    vstd::arithmetic::mul::lemma_mul_nonnegative(a, num);
}

// ---------------------------------------------------------------------
// Fees.
// ---------------------------------------------------------------------

/// The basis-point fee charged on a raw amount, rounded down.
pub open spec fn spec_fee(amount: int, fee_bps: int) -> int {
    amount * fee_bps / (FEE_DIVISOR as int)
}

/// Trade-fee and admin-fee numerators of one swap, both over
/// `FEE_DIVISOR`.
#[derive(Clone, Copy, Debug, PartialEq, Eq, Structural)]
pub struct Fees {
    pub trade_fee: u32,
    pub admin_fee: u32,
}

impl Fees {
    pub fn new(total_fee: u32, admin_fees: &AdminFees) -> (r: Self)
        ensures
            r.trade_fee == total_fee,
            r.admin_fee == admin_fees.admin_fee_bps,
    {
        Fees { trade_fee: total_fee, admin_fee: admin_fees.admin_fee_bps }
    }

    /// The trade fee charged on `amount`.
    pub fn trade_fee(&self, amount: u128) -> (r: u128)
        requires
            self.trade_fee <= FEE_DIVISOR,
        ensures
            r == spec_fee(amount as int, self.trade_fee as int),
            r <= amount,
    {
        proof {
            lemma_ratio_le(amount as int, self.trade_fee as int, FEE_DIVISOR as int);
        }
        u128_ratio(amount, self.trade_fee as u128, FEE_DIVISOR as u128)
    }

    /// The share of a collected fee kept for protocol accounting.
    pub fn admin_trade_fee(&self, amount: u128) -> (r: u128)
        requires
            self.admin_fee <= FEE_DIVISOR,
        ensures
            r == spec_fee(amount as int, self.admin_fee as int),
            r <= amount,
    {
        proof {
            lemma_ratio_le(amount as int, self.admin_fee as int, FEE_DIVISOR as int);
        }
        u128_ratio(amount, self.admin_fee as u128, FEE_DIVISOR as u128)
    }
}

/// The fee taken out of a raw amount never decreases when the fee rate
/// grows.
pub proof fn lemma_fee_monotone(amount: int, bps1: int, bps2: int)
    requires
        0 <= amount,
        0 <= bps1 <= bps2,
    ensures
        spec_fee(amount, bps1) <= spec_fee(amount, bps2),
{
    lemma_mul_inequality(bps1, bps2, amount);
    lemma_div_is_ordered(amount * bps1, amount * bps2, FEE_DIVISOR as int);
}

// ---------------------------------------------------------------------
// The amplification ramp.
// ---------------------------------------------------------------------

/// The effective amplification coefficient at `now`: the initial
/// coefficient at or before the ramp start, the target at or after the
/// ramp stop, and otherwise a linear interpolation with one final
/// truncating division; `None` when a checked step overflows.
pub open spec fn spec_amp_factor(
    init_amp: int,
    target_amp: int,
    now: int,
    t0: int,
    t1: int,
) -> Option<int> {
    if now <= t0 {
        Some(init_amp)
    } else if now >= t1 {
        Some(target_amp)
    } else if target_amp >= init_amp {
        if (target_amp - init_amp) * (now - t0) >= pow2_128() {
            None
        } else {
            let ad = (target_amp - init_amp) * (now - t0) / (t1 - t0);
            if init_amp + ad >= pow2_128() {
                None
            } else {
                Some(init_amp + ad)
            }
        }
    } else {
        if (init_amp - target_amp) * (now - t0) >= pow2_128() {
            None
        } else {
            let ad = (init_amp - target_amp) * (now - t0) / (t1 - t0);
            if init_amp - ad < 0 {
                None
            } else {
                Some(init_amp - ad)
            }
        }
    }
}

pub open spec fn opt_u128_matches(r: Option<u128>, s: Option<int>) -> bool {
    match r {
        Some(v) => s == Some(v as int),
        None => s == None::<int>,
    }
}

pub open spec fn res_u256_matches(r: Result<U256, SwapError>, s: Result<int, SwapError>) -> bool {
    match r {
        Ok(v) => s == Ok::<int, SwapError>(v.val()),
        Err(e) => s == Err::<int, SwapError>(e),
    }
}

/// The invariant solver together with the amplification ramp it reads.
#[derive(Clone, Copy, Debug, PartialEq, Eq, Structural)]
pub struct StableSwap {
    /// Initial amplification coefficient.
    pub initial_amp_factor: u128,
    /// Target amplification coefficient.
    pub target_amp_factor: u128,
    /// Current timestamp the quote is taken at.
    pub current_ts: u64,
    /// Ramp start timestamp.
    pub start_ramp_ts: u64,
    /// Ramp stop timestamp.
    pub stop_ramp_ts: u64,
}

impl StableSwap {
    pub fn new(
        initial_amp_factor: u128,
        target_amp_factor: u128,
        current_ts: u64,
        start_ramp_ts: u64,
        stop_ramp_ts: u64,
    ) -> (r: Self)
        ensures
            r.initial_amp_factor == initial_amp_factor,
            r.target_amp_factor == target_amp_factor,
            r.current_ts == current_ts,
            r.start_ramp_ts == start_ramp_ts,
            r.stop_ramp_ts == stop_ramp_ts,
    {
        StableSwap { initial_amp_factor, target_amp_factor, current_ts, start_ramp_ts, stop_ramp_ts }
    }

    pub open spec fn spec_amp(self) -> Option<int> {
        spec_amp_factor(
            self.initial_amp_factor as int,
            self.target_amp_factor as int,
            self.current_ts as int,
            self.start_ramp_ts as int,
            self.stop_ramp_ts as int,
        )
    }

    /// The effective amplification coefficient at `current_ts`.
    pub fn compute_amp_factor(&self) -> (r: Option<u128>)
        ensures
            opt_u128_matches(r, self.spec_amp()),
    {
        if self.current_ts <= self.start_ramp_ts {
            Some(self.initial_amp_factor)
        } else if self.current_ts >= self.stop_ramp_ts {
            Some(self.target_amp_factor)
        } else {
            let time_range = self.stop_ramp_ts - self.start_ramp_ts;
            let time_delta = self.current_ts - self.start_ramp_ts;
            if self.target_amp_factor >= self.initial_amp_factor {
                let amp_range = self.target_amp_factor - self.initial_amp_factor;
                let scaled = match amp_range.checked_mul(time_delta as u128) {
                    Some(v) => v,
                    None => {
                        return None;
                    },
                };
                let amp_delta = scaled / (time_range as u128);
                self.initial_amp_factor.checked_add(amp_delta)
            } else {
                let amp_range = self.initial_amp_factor - self.target_amp_factor;
                let scaled = match amp_range.checked_mul(time_delta as u128) {
                    Some(v) => v,
                    None => {
                        return None;
                    },
                };
                let amp_delta = scaled / (time_range as u128);
                self.initial_amp_factor.checked_sub(amp_delta)
            }
        }
    }
}

// ---------------------------------------------------------------------
// Powers and the amplified coefficient `ann = amp * n^n`.
// ---------------------------------------------------------------------

pub open spec fn spec_pow(base: int, e: int) -> int
    decreases e,
{
    if e <= 0 {
        1
    } else {
        base * spec_pow(base, e - 1)
    }
}

pub proof fn lemma_pow_pos(base: int, e: int)
    requires
        base >= 1,
    ensures
        spec_pow(base, e) >= 1,
    decreases e,
{
    if e > 0 {
        lemma_pow_pos(base, e - 1);
        lemma_mul_inequality(1, spec_pow(base, e - 1), base);
        assert(base * 1 == base);
        lemma_mul_inequality(1, base, spec_pow(base, e - 1));
    }
}

pub proof fn lemma_pow_monotone_e(base: int, a: int, b: int)
    requires
        base >= 1,
        0 <= a <= b,
    ensures
        spec_pow(base, a) <= spec_pow(base, b),
    decreases b,
{
    if a < b {
        lemma_pow_monotone_e(base, a, b - 1);
        lemma_pow_pos(base, b - 1);
        lemma_mul_inequality(1, base, spec_pow(base, b - 1));
    }
}

/// `base^e`, or `None` when the power exceeds 128 bits.
pub fn checked_pow_u128(base: u128, e: usize) -> (r: Option<u128>)
    ensures
        match r {
            Some(v) => v == spec_pow(base as int, e as int),
            None => spec_pow(base as int, e as int) >= pow2_128(),
        },
{
    if e == 0 {
        return Some(1);
    }
    if base == 0 {
        assert(spec_pow(0, e as int) == 0 * spec_pow(0, e as int - 1));
        return Some(0);
    }
    let mut acc: u128 = 1;
    let mut i: usize = 0;
    while i < e
        invariant
            i <= e,
            base >= 1,
            acc == spec_pow(base as int, i as int),
        decreases e - i,
    {
        match acc.checked_mul(base) {
            Some(v) => {
                assert(spec_pow(base as int, i as int + 1) == base * spec_pow(base as int, i as int));
                acc = v;
            },
            None => {
                proof {
                    assert(spec_pow(base as int, i as int + 1) == base * spec_pow(
                        base as int,
                        i as int,
                    ));
                    lemma_pow_monotone_e(base as int, i as int + 1, e as int);
                }
                return None;
            },
        }
        i = i + 1;
    }
    Some(acc)
}

/// `amp * n^n`, or `None` when it exceeds 128 bits.
pub open spec fn spec_ann(amp: int, n: int) -> Option<int> {
    if spec_pow(n, n) >= pow2_128() {
        None
    } else if amp * spec_pow(n, n) >= pow2_128() {
        None
    } else {
        Some(amp * spec_pow(n, n))
    }
}

pub fn compute_ann(amp: u128, n: usize) -> (r: Option<u128>)
    ensures
        opt_u128_matches(r, spec_ann(amp as int, n as int)),
{
    match checked_pow_u128(n as u128, n) {
        None => None,
        Some(p) => amp.checked_mul(p),
    }
}

// ---------------------------------------------------------------------
// The invariant D.
// ---------------------------------------------------------------------

/// Sum of the first `k` balances.
pub open spec fn spec_sum_prefix(amounts: Seq<u128>, k: int) -> int
    decreases k,
{
    if k <= 0 {
        0
    } else {
        spec_sum_prefix(amounts, k - 1) + amounts[k - 1]
    }
}

pub proof fn lemma_sum_prefix_monotone(amounts: Seq<u128>, a: int, b: int)
    requires
        0 <= a <= b <= amounts.len(),
    ensures
        spec_sum_prefix(amounts, a) <= spec_sum_prefix(amounts, b),
    decreases b,
{
    if a < b {
        lemma_sum_prefix_monotone(amounts, a, b - 1);
    }
}

/// `D^(n+1) / (n^n * prod)` of the iterate `d`, folded over the first
/// `k` balances as the solver computes it, with every checked step.
pub open spec fn spec_d_prod(amounts: Seq<u128>, d: int, k: int) -> Option<int>
    decreases k,
{
    let n = amounts.len() as int;
    if k <= 0 {
        Some(d)
    } else {
        match spec_d_prod(amounts, d, k - 1) {
            None => None,
            Some(acc) => {
                if acc * d >= pow2_256() {
                    None
                } else if amounts[k - 1] as int * n == 0 {
                    None
                } else {
                    Some(acc * d / (amounts[k - 1] as int * n))
                }
            },
        }
    }
}

pub proof fn lemma_d_prod_none(amounts: Seq<u128>, d: int, k: int, m: int)
    requires
        spec_d_prod(amounts, d, k) == None::<int>,
        0 <= k <= m,
    ensures
        spec_d_prod(amounts, d, m) == None::<int>,
    decreases m,
{
    if k < m {
        lemma_d_prod_none(amounts, d, k, m - 1);
    }
}

/// One Newton step of the invariant solver, from iterate `d` to the
/// next iterate, with every checked step.
pub open spec fn spec_d_step(amounts: Seq<u128>, ann: int, sum: int, d: int) -> Option<int> {
    let n = amounts.len() as int;
    match spec_d_prod(amounts, d, n) {
        None => None,
        Some(dp) => {
            if ann < 1 {
                None
            } else if dp * n >= pow2_256() {
                None
            } else if sum * ann >= pow2_256() {
                None
            } else if dp * n + sum * ann >= pow2_256() {
                None
            } else if d * (ann - 1) >= pow2_256() {
                None
            } else if dp * (n + 1) >= pow2_256() {
                None
            } else if d * (ann - 1) + dp * (n + 1) >= pow2_256() {
                None
            } else if d * (dp * n + sum * ann) >= pow2_256() {
                None
            } else if d * (ann - 1) + dp * (n + 1) == 0 {
                None
            } else {
                Some((d * (dp * n + sum * ann)) / (d * (ann - 1) + dp * (n + 1)))
            }
        },
    }
}

/// The bounded Newton iteration for D: stops when two successive
/// iterates differ by at most one unit, fails `NotConverged` when the
/// fuel runs out, and fails `ArithmeticOverflow` when a checked step
/// fails.
pub open spec fn spec_d_loop(
    amounts: Seq<u128>,
    ann: int,
    sum: int,
    d: int,
    fuel: nat,
) -> Result<int, SwapError>
    decreases fuel,
{
    if fuel == 0 {
        Err(SwapError::NotConverged)
    } else {
        match spec_d_step(amounts, ann, sum, d) {
            None => Err(SwapError::ArithmeticOverflow),
            Some(d2) => {
                if -1 <= d2 - d && d2 - d <= 1 {
                    Ok(d2)
                } else {
                    spec_d_loop(amounts, ann, sum, d2, (fuel - 1) as nat)
                }
            },
        }
    }
}

/// The StableSwap invariant of the given comparable balances at the
/// ramped amplification coefficient: `D_0` is their sum, then Newton
/// steps until convergence.
pub open spec fn spec_compute_d(
    amounts: Seq<u128>,
    init_amp: int,
    target_amp: int,
    now: int,
    t0: int,
    t1: int,
) -> Result<int, SwapError> {
    let sum = spec_sum_prefix(amounts, amounts.len() as int);
    if sum >= pow2_128() {
        Err(SwapError::ArithmeticOverflow)
    } else if sum == 0 {
        Ok(0)
    } else {
        match spec_amp_factor(init_amp, target_amp, now, t0, t1) {
            None => Err(SwapError::ArithmeticOverflow),
            Some(amp) => match spec_ann(amp, amounts.len() as int) {
                None => Err(SwapError::ArithmeticOverflow),
                Some(ann) => spec_d_loop(amounts, ann, sum, sum, MAX_ITERATIONS as nat),
            },
        }
    }
}

/// The `D^(n+1) / (n^n * prod)` fold, as executed.
fn d_prod_exec(c_amounts: &Vec<u128>, d: U256) -> (r: Option<U256>)
    ensures
        match r {
            Some(v) => spec_d_prod(c_amounts@, d.val(), c_amounts@.len() as int) == Some(v.val()),
            None => spec_d_prod(c_amounts@, d.val(), c_amounts@.len() as int) == None::<int>,
        },
{
    let n = c_amounts.len();
    let mut acc = d;
    let mut i: usize = 0;
    while i < n
        invariant
            i <= n,
            n == c_amounts@.len(),
            spec_d_prod(c_amounts@, d.val(), i as int) == Some(acc.val()),
        decreases n - i,
    {
        let t = match u256_mul(acc, d) {
            Some(t) => t,
            None => {
                proof {
                    lemma_d_prod_none(c_amounts@, d.val(), i as int + 1, n as int);
                }
                return None;
            },
        };
        let x = c_amounts[i];
        let xn = match u256_mul(U256::from_u128(x), U256::from_u128(n as u128)) {
            Some(v) => v,
            None => {
                proof {
                    lemma_u128_mul_lt_p256(x as int, n as int);
                }
                assert(false);
                return None;
            },
        };
        let q = match u256_div(t, xn) {
            Some(q) => q,
            None => {
                proof {
                    lemma_d_prod_none(c_amounts@, d.val(), i as int + 1, n as int);
                }
                return None;
            },
        };
        acc = q;
        i = i + 1;
    }
    Some(acc)
}

/// One Newton step for D, as executed.
fn d_step_exec(c_amounts: &Vec<u128>, ann: u128, sum: u128, d: U256) -> (r: Option<U256>)
    ensures
        match r {
            Some(v) => spec_d_step(c_amounts@, ann as int, sum as int, d.val()) == Some(v.val()),
            None => spec_d_step(c_amounts@, ann as int, sum as int, d.val()) == None::<int>,
        },
{
    let dp = match d_prod_exec(c_amounts, d) {
        Some(v) => v,
        None => {
            return None;
        },
    };
    let ann_m1 = match ann.checked_sub(1) {
        Some(v) => v,
        None => {
            return None;
        },
    };
    let n_u = c_amounts.len() as u128;
    let t1 = match u256_mul(dp, U256::from_u128(n_u)) {
        Some(v) => v,
        None => {
            return None;
        },
    };
    let t2 = match u256_mul(U256::from_u128(sum), U256::from_u128(ann)) {
        Some(v) => v,
        None => {
            return None;
        },
    };
    let num2 = match u256_add(t1, t2) {
        Some(v) => v,
        None => {
            return None;
        },
    };
    let t3 = match u256_mul(d, U256::from_u128(ann_m1)) {
        Some(v) => v,
        None => {
            return None;
        },
    };
    let t4 = match u256_mul(dp, U256::from_u128(n_u + 1)) {
        Some(v) => v,
        None => {
            return None;
        },
    };
    let den = match u256_add(t3, t4) {
        Some(v) => v,
        None => {
            return None;
        },
    };
    let num = match u256_mul(d, num2) {
        Some(v) => v,
        None => {
            return None;
        },
    };
    match u256_div(num, den) {
        Some(q) => Some(q),
        None => None,
    }
}

impl StableSwap {
    pub open spec fn spec_d(self, amounts: Seq<u128>) -> Result<int, SwapError> {
        spec_compute_d(
            amounts,
            self.initial_amp_factor as int,
            self.target_amp_factor as int,
            self.current_ts as int,
            self.start_ramp_ts as int,
            self.stop_ramp_ts as int,
        )
    }

    /// Compute the StableSwap invariant D of the comparable balances:
    /// bounded Newton-Raphson from `D_0 = sum(balances)`.
    pub fn compute_d(&self, c_amounts: &Vec<u128>) -> (r: Result<U256, SwapError>)
        ensures
            res_u256_matches(r, self.spec_d(c_amounts@)),
    {
        let n = c_amounts.len();
        let mut sum: u128 = 0;
        let mut i: usize = 0;
        while i < n
            invariant
                i <= n,
                n == c_amounts@.len(),
                sum == spec_sum_prefix(c_amounts@, i as int),
            decreases n - i,
        {
            match sum.checked_add(c_amounts[i]) {
                Some(s2) => {
                    sum = s2;
                },
                None => {
                    proof {
                        lemma_sum_prefix_monotone(c_amounts@, i as int + 1, n as int);
                    }
                    return Err(SwapError::ArithmeticOverflow);
                },
            }
            i = i + 1;
        }
        if sum == 0 {
            return Ok(U256::from_u128(0));
        }
        let amp = match self.compute_amp_factor() {
            Some(a) => a,
            None => {
                return Err(SwapError::ArithmeticOverflow);
            },
        };
        let ann = match compute_ann(amp, n) {
            Some(a) => a,
            None => {
                return Err(SwapError::ArithmeticOverflow);
            },
        };
        let ghost goal = spec_d_loop(
            c_amounts@,
            ann as int,
            sum as int,
            sum as int,
            MAX_ITERATIONS as nat,
        );
        let mut d = U256::from_u128(sum);
        let mut it: u32 = 0;
        while it < MAX_ITERATIONS
            invariant
                it <= MAX_ITERATIONS,
                n == c_amounts@.len(),
                goal == spec_d_loop(
                    c_amounts@,
                    ann as int,
                    sum as int,
                    d.val(),
                    (MAX_ITERATIONS - it) as nat,
                ),
                goal == self.spec_d(c_amounts@),
            decreases MAX_ITERATIONS - it,
        {
            let d2 = match d_step_exec(c_amounts, ann, sum, d) {
                Some(v) => v,
                None => {
                    return Err(SwapError::ArithmeticOverflow);
                },
            };
            if u256_within_one(d2, d) {
                return Ok(d2);
            }
            d = d2;
            it = it + 1;
        }
        Err(SwapError::NotConverged)
    }
}

// ---------------------------------------------------------------------
// The unknown balance y.
// ---------------------------------------------------------------------

/// The running sum `s` of all balances but the output token's, and the
/// running product term `c`, folded over the first `k` indices as the
/// solver computes them, with every checked step.
pub open spec fn spec_cs(
    amounts: Seq<u128>,
    d: int,
    x_c: int,
    ix: int,
    iy: int,
    k: int,
) -> Option<(int, int)>
    decreases k,
{
    if k <= 0 {
        if d * d >= pow2_256() {
            None
        } else if x_c == 0 {
            None
        } else {
            Some((x_c, d * d / x_c))
        }
    } else {
        match spec_cs(amounts, d, x_c, ix, iy, k - 1) {
            None => None,
            Some(sc) => {
                if k - 1 == ix || k - 1 == iy {
                    Some(sc)
                } else {
                    let x = amounts[k - 1] as int;
                    if sc.0 + x >= pow2_128() {
                        None
                    } else if sc.1 * d >= pow2_256() {
                        None
                    } else if x == 0 {
                        None
                    } else {
                        Some((sc.0 + x, sc.1 * d / x))
                    }
                }
            },
        }
    }
}

pub proof fn lemma_cs_none(amounts: Seq<u128>, d: int, x_c: int, ix: int, iy: int, k: int, m: int)
    requires
        spec_cs(amounts, d, x_c, ix, iy, k) == None::<(int, int)>,
        0 <= k <= m,
    ensures
        spec_cs(amounts, d, x_c, ix, iy, m) == None::<(int, int)>,
    decreases m,
{
    if k < m {
        lemma_cs_none(amounts, d, x_c, ix, iy, k, m - 1);
    }
}

/// The bounded Newton iteration for the unknown balance y, solving
/// `y^2 + y*(b - D) = c` from the start value `D`.
pub open spec fn spec_y_loop(c: int, b: int, d: int, y: int, fuel: nat) -> Result<int, SwapError>
    decreases fuel,
{
    if fuel == 0 {
        Err(SwapError::NotConverged)
    } else if y * y >= pow2_256() {
        Err(SwapError::ArithmeticOverflow)
    } else if y * y + c >= pow2_256() {
        Err(SwapError::ArithmeticOverflow)
    } else if 2 * y >= pow2_256() {
        Err(SwapError::ArithmeticOverflow)
    } else if 2 * y + b >= pow2_256() {
        Err(SwapError::ArithmeticOverflow)
    } else if 2 * y + b - d < 0 {
        Err(SwapError::ArithmeticOverflow)
    } else if 2 * y + b - d == 0 {
        Err(SwapError::ArithmeticOverflow)
    } else {
        let y2 = (y * y + c) / (2 * y + b - d);
        if -1 <= y2 - y && y2 - y <= 1 {
            Ok(y2)
        } else {
            spec_y_loop(c, b, d, y2, (fuel - 1) as nat)
        }
    }
}

/// The new balance of the output token, holding the invariant D fixed
/// after the input token's balance moved to `x_c`.
pub open spec fn spec_compute_y(
    amounts: Seq<u128>,
    x_c: int,
    ix: int,
    iy: int,
    init_amp: int,
    target_amp: int,
    now: int,
    t0: int,
    t1: int,
) -> Result<int, SwapError> {
    let n = amounts.len() as int;
    match spec_amp_factor(init_amp, target_amp, now, t0, t1) {
        None => Err(SwapError::ArithmeticOverflow),
        Some(amp) => match spec_ann(amp, n) {
            None => Err(SwapError::ArithmeticOverflow),
            Some(ann) => match spec_compute_d(amounts, init_amp, target_amp, now, t0, t1) {
                Err(e) => Err(e),
                Ok(d) => match spec_cs(amounts, d, x_c, ix, iy, n) {
                    None => Err(SwapError::ArithmeticOverflow),
                    Some(sc) => {
                        if ann * spec_pow(n, n) >= pow2_128() {
                            Err(SwapError::ArithmeticOverflow)
                        } else if sc.1 * d >= pow2_256() {
                            Err(SwapError::ArithmeticOverflow)
                        } else if ann * spec_pow(n, n) == 0 {
                            Err(SwapError::ArithmeticOverflow)
                        } else {
                            let cf = sc.1 * d / (ann * spec_pow(n, n));
                            if ann == 0 {
                                Err(SwapError::ArithmeticOverflow)
                            } else if d / ann + sc.0 >= pow2_256() {
                                Err(SwapError::ArithmeticOverflow)
                            } else {
                                spec_y_loop(cf, d / ann + sc.0, d, d, MAX_ITERATIONS as nat)
                            }
                        }
                    },
                },
            },
        },
    }
}

impl StableSwap {
    pub open spec fn spec_y(self, amounts: Seq<u128>, x_c: int, ix: int, iy: int) -> Result<
        int,
        SwapError,
    > {
        spec_compute_y(
            amounts,
            x_c,
            ix,
            iy,
            self.initial_amp_factor as int,
            self.target_amp_factor as int,
            self.current_ts as int,
            self.start_ramp_ts as int,
            self.stop_ramp_ts as int,
        )
    }

    /// Compute the new output-token balance `y` for the updated
    /// input-token balance `x_c_amount`, holding the invariant fixed:
    /// bounded Newton-Raphson from `y_0 = D`.
    #[verifier::loop_isolation(false)]
    pub fn compute_y(
        &self,
        x_c_amount: u128,
        current_c_amounts: &Vec<u128>,
        index_x: usize,
        index_y: usize,
    ) -> (r: Result<U256, SwapError>)
        ensures
            res_u256_matches(
                r,
                self.spec_y(current_c_amounts@, x_c_amount as int, index_x as int, index_y as int),
            ),
    {
        let n = current_c_amounts.len();
        let amp = match self.compute_amp_factor() {
            Some(a) => a,
            None => {
                return Err(SwapError::ArithmeticOverflow);
            },
        };
        let pow_nn = match checked_pow_u128(n as u128, n) {
            Some(p) => p,
            None => {
                return Err(SwapError::ArithmeticOverflow);
            },
        };
        let ann = match amp.checked_mul(pow_nn) {
            Some(a) => a,
            None => {
                return Err(SwapError::ArithmeticOverflow);
            },
        };
        let d = match self.compute_d(current_c_amounts) {
            Ok(v) => v,
            Err(e) => {
                return Err(e);
            },
        };
        let t = match u256_mul(d, d) {
            Some(t) => t,
            None => {
                proof {
                    lemma_cs_none(
                        current_c_amounts@,
                        d.val(),
                        x_c_amount as int,
                        index_x as int,
                        index_y as int,
                        0,
                        n as int,
                    );
                }
                return Err(SwapError::ArithmeticOverflow);
            },
        };
        let mut c = match u256_div(t, U256::from_u128(x_c_amount)) {
            Some(v) => v,
            None => {
                proof {
                    lemma_cs_none(
                        current_c_amounts@,
                        d.val(),
                        x_c_amount as int,
                        index_x as int,
                        index_y as int,
                        0,
                        n as int,
                    );
                }
                return Err(SwapError::ArithmeticOverflow);
            },
        };
        let mut s_: u128 = x_c_amount;
        let mut i: usize = 0;
        while i < n
            invariant
                i <= n,
                n == current_c_amounts@.len(),
                spec_cs(
                    current_c_amounts@,
                    d.val(),
                    x_c_amount as int,
                    index_x as int,
                    index_y as int,
                    i as int,
                ) == Some((s_ as int, c.val())),
            decreases n - i,
        {
            if i != index_x && i != index_y {
                let x = current_c_amounts[i];
                match s_.checked_add(x) {
                    Some(v) => {
                        s_ = v;
                    },
                    None => {
                        proof {
                            lemma_cs_none(
                                current_c_amounts@,
                                d.val(),
                                x_c_amount as int,
                                index_x as int,
                                index_y as int,
                                i as int + 1,
                                n as int,
                            );
                        }
                        return Err(SwapError::ArithmeticOverflow);
                    },
                }
                let t2 = match u256_mul(c, d) {
                    Some(v) => v,
                    None => {
                        proof {
                            lemma_cs_none(
                                current_c_amounts@,
                                d.val(),
                                x_c_amount as int,
                                index_x as int,
                                index_y as int,
                                i as int + 1,
                                n as int,
                            );
                        }
                        return Err(SwapError::ArithmeticOverflow);
                    },
                };
                c = match u256_div(t2, U256::from_u128(x)) {
                    Some(v) => v,
                    None => {
                        proof {
                            lemma_cs_none(
                                current_c_amounts@,
                                d.val(),
                                x_c_amount as int,
                                index_x as int,
                                index_y as int,
                                i as int + 1,
                                n as int,
                            );
                        }
                        return Err(SwapError::ArithmeticOverflow);
                    },
                };
            }
            i = i + 1;
        }
        let annpow = match ann.checked_mul(pow_nn) {
            Some(v) => v,
            None => {
                return Err(SwapError::ArithmeticOverflow);
            },
        };
        let t3 = match u256_mul(c, d) {
            Some(v) => v,
            None => {
                return Err(SwapError::ArithmeticOverflow);
            },
        };
        let cf = match u256_div(t3, U256::from_u128(annpow)) {
            Some(v) => v,
            None => {
                return Err(SwapError::ArithmeticOverflow);
            },
        };
        let t5 = match u256_div(d, U256::from_u128(ann)) {
            Some(v) => v,
            None => {
                return Err(SwapError::ArithmeticOverflow);
            },
        };
        let b = match u256_add(t5, U256::from_u128(s_)) {
            Some(v) => v,
            None => {
                return Err(SwapError::ArithmeticOverflow);
            },
        };
        let ghost goal_y = spec_y_loop(cf.val(), b.val(), d.val(), d.val(), MAX_ITERATIONS as nat);
        let mut y = d;
        let mut it: u32 = 0;
        while it < MAX_ITERATIONS
            invariant
                it <= MAX_ITERATIONS,
                goal_y == spec_y_loop(cf.val(), b.val(), d.val(), y.val(), (MAX_ITERATIONS
                    - it) as nat),
                goal_y == self.spec_y(
                    current_c_amounts@,
                    x_c_amount as int,
                    index_x as int,
                    index_y as int,
                ),
            decreases MAX_ITERATIONS - it,
        {
            let ysq = match u256_mul(y, y) {
                Some(v) => v,
                None => {
                    return Err(SwapError::ArithmeticOverflow);
                },
            };
            let ynum = match u256_add(ysq, cf) {
                Some(v) => v,
                None => {
                    return Err(SwapError::ArithmeticOverflow);
                },
            };
            let t2y = match u256_add(y, y) {
                Some(v) => v,
                None => {
                    return Err(SwapError::ArithmeticOverflow);
                },
            };
            let den1 = match u256_add(t2y, b) {
                Some(v) => v,
                None => {
                    return Err(SwapError::ArithmeticOverflow);
                },
            };
            let den = match u256_sub(den1, d) {
                Some(v) => v,
                None => {
                    return Err(SwapError::ArithmeticOverflow);
                },
            };
            let y2 = match u256_div(ynum, den) {
                Some(v) => v,
                None => {
                    return Err(SwapError::ArithmeticOverflow);
                },
            };
            if u256_within_one(y2, y) {
                return Ok(y2);
            }
            y = y2;
            it = it + 1;
        }
        Err(SwapError::NotConverged)
    }
}

// ---------------------------------------------------------------------
// One full swap over the invariant.
// ---------------------------------------------------------------------

/// Outcome of one swap quote over comparable balances.
#[derive(Clone, Copy, Debug, PartialEq, Eq, Structural)]
pub struct SwapResult {
    /// New amount of the source token.
    pub new_source_amount: u128,
    /// New amount of the destination token.
    pub new_destination_amount: u128,
    /// Amount of the destination token delivered to the swapper.
    pub amount_swapped: u128,
    /// Admin share of the trade fee.
    pub admin_fee: u128,
    /// Total trade fee charged.
    pub fee: u128,
}

/// One swap quote as a tuple `(amount_swapped, fee, admin_fee,
/// new_source_amount, new_destination_amount)`.
pub open spec fn spec_swap_to(
    amounts: Seq<u128>,
    in_idx: int,
    amount_in: int,
    out_idx: int,
    trade_bps: int,
    admin_bps: int,
    init_amp: int,
    target_amp: int,
    now: int,
    t0: int,
    t1: int,
) -> Result<(int, int, int, int, int), SwapError> {
    if amounts[in_idx] + amount_in >= pow2_128() {
        Err(SwapError::ArithmeticOverflow)
    } else {
        let x = amounts[in_idx] + amount_in;
        match spec_compute_y(amounts, x, in_idx, out_idx, init_amp, target_amp, now, t0, t1) {
            Err(e) => Err(e),
            Ok(y) => {
                if amounts[out_idx] - y < 0 {
                    Err(SwapError::ArithmeticOverflow)
                } else {
                    let dy = amounts[out_idx] - y;
                    let fee = spec_fee(dy, trade_bps);
                    let admin = spec_fee(fee, admin_bps);
                    Ok((dy - fee, fee, admin, x, amounts[out_idx] - (dy - fee) - admin))
                }
            },
        }
    }
}

pub open spec fn res_swap_matches(
    r: Result<SwapResult, SwapError>,
    s: Result<(int, int, int, int, int), SwapError>,
) -> bool {
    match r {
        Ok(v) => s == Ok::<(int, int, int, int, int), SwapError>(
            (
                v.amount_swapped as int,
                v.fee as int,
                v.admin_fee as int,
                v.new_source_amount as int,
                v.new_destination_amount as int,
            ),
        ),
        Err(e) => s == Err::<(int, int, int, int, int), SwapError>(e),
    }
}

impl StableSwap {
    pub open spec fn spec_swap_result(
        self,
        amounts: Seq<u128>,
        in_idx: int,
        amount_in: int,
        out_idx: int,
        trade_bps: int,
        admin_bps: int,
    ) -> Result<(int, int, int, int, int), SwapError> {
        spec_swap_to(
            amounts,
            in_idx,
            amount_in,
            out_idx,
            trade_bps,
            admin_bps,
            self.initial_amp_factor as int,
            self.target_amp_factor as int,
            self.current_ts as int,
            self.start_ramp_ts as int,
            self.stop_ramp_ts as int,
        )
    }

    /// Quote one swap of `token_in_amount` (already in comparable
    /// precision) over the current comparable balances, with the trade
    /// fee taken out of the raw output and the admin share accounted.
    pub fn swap_to(
        &self,
        token_in_idx: usize,
        token_in_amount: u128,
        token_out_idx: usize,
        current_c_amounts: &Vec<u128>,
        fees: &Fees,
    ) -> (r: Result<SwapResult, SwapError>)
        requires
            token_in_idx < current_c_amounts@.len(),
            token_out_idx < current_c_amounts@.len(),
            fees.trade_fee <= FEE_DIVISOR,
            fees.admin_fee <= FEE_DIVISOR,
        ensures
            res_swap_matches(
                r,
                self.spec_swap_result(
                    current_c_amounts@,
                    token_in_idx as int,
                    token_in_amount as int,
                    token_out_idx as int,
                    fees.trade_fee as int,
                    fees.admin_fee as int,
                ),
            ),
    {
        let x = match token_in_amount.checked_add(current_c_amounts[token_in_idx]) {
            Some(v) => v,
            None => {
                return Err(SwapError::ArithmeticOverflow);
            },
        };
        let y = match self.compute_y(x, current_c_amounts, token_in_idx, token_out_idx) {
            Ok(v) => v,
            Err(e) => {
                return Err(e);
            },
        };
        let out_balance = current_c_amounts[token_out_idx];
        let dy_w = match u256_sub(U256::from_u128(out_balance), y) {
            Some(v) => v,
            None => {
                return Err(SwapError::ArithmeticOverflow);
            },
        };
        let dy = dy_w.to_u128();
        let trade_fee = fees.trade_fee(dy);
        let admin_fee = fees.admin_trade_fee(trade_fee);
        let amount_swapped = dy - trade_fee;
        let new_destination_amount = out_balance - amount_swapped - admin_fee;
        Ok(
            SwapResult {
                new_source_amount: x,
                new_destination_amount,
                amount_swapped,
                admin_fee,
                fee: trade_fee,
            },
        )
    }
}

} // verus!
