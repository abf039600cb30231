use vstd::prelude::*;

verus! {

/// Fee divisor, allowing to provide fee in bps.
pub const FEE_DIVISOR: u32 = 10_000;

/// 2^128 as a mathematical integer.
pub open spec fn pow2_128() -> int {
    0x100000000000000000000000000000000int
}

/// 2^256 as a mathematical integer.
pub open spec fn pow2_256() -> int {
    0x10000000000000000000000000000000000000000000000000000000000000000int
}

/// 256-bit unsigned integer, kept as two 128-bit halves.
#[derive(Clone, Copy, Debug, PartialEq, Eq, Structural)]
pub struct U256 {
    pub hi: u128,
    pub lo: u128,
}

impl U256 {
    /// The mathematical value of the two halves.
    pub open spec fn val(self) -> int {
        self.hi * pow2_128() + self.lo
    }

    pub fn from_u128(x: u128) -> (r: U256)
        ensures
            r.val() == x,
    {
        U256 { hi: 0, lo: x }
    }

    pub fn to_u128(self) -> (r: u128)
        requires
            self.val() < pow2_128(),
        ensures
            r == self.val(),
    {
        self.lo
    }

}

/// Checked 256-bit addition of the halves, with an explicit carry.
pub fn u256_add(a: U256, b: U256) -> (r: Option<U256>)
    ensures
        match r {
            Some(s) => s.val() == a.val() + b.val(),
            None => a.val() + b.val() >= pow2_256(),
        },
{
    let (lo, carry): (u128, u128) = match a.lo.checked_add(b.lo) {
        Some(l) => (l, 0),
        None => ((a.lo - (u128::MAX - b.lo)) - 1, 1),
    };
    match a.hi.checked_add(b.hi) {
        None => None,
        Some(h1) => match h1.checked_add(carry) {
            None => None,
            Some(h) => Some(U256 { hi: h, lo }),
        },
    }
}

/// Checked 256-bit subtraction of the halves, with an explicit borrow.
pub fn u256_sub(a: U256, b: U256) -> (r: Option<U256>)
    ensures
        match r {
            Some(d) => d.val() == a.val() - b.val(),
            None => a.val() < b.val(),
        },
{
    let (lo, borrow): (u128, u128) = match a.lo.checked_sub(b.lo) {
        Some(l) => (l, 0),
        None => (a.lo + ((u128::MAX - b.lo) + 1), 1),
    };
    match a.hi.checked_sub(b.hi) {
        None => None,
        Some(h1) => match h1.checked_sub(borrow) {
            None => None,
            Some(h) => Some(U256 { hi: h, lo }),
        },
    }
}

pub fn u256_lt(a: U256, b: U256) -> (r: bool)
    ensures
        r == (a.val() < b.val()),
{
    if a.hi < b.hi {
        true
    } else if a.hi > b.hi {
        false
    } else {
        a.lo < b.lo
    }
}

/// Whether two 256-bit values differ by at most one unit.
pub fn u256_within_one(a: U256, b: U256) -> (r: bool)
    ensures
        r == (-1 <= a.val() - b.val() && a.val() - b.val() <= 1),
{
    if u256_lt(a, b) {
        match u256_sub(b, a) {
            Some(d) => d.hi == 0 && d.lo <= 1,
            None => false,
        }
    } else {
        match u256_sub(a, b) {
            Some(d) => d.hi == 0 && d.lo <= 1,
            None => false,
        }
    }
}

/// Relies on `primitive_types::U256`: `checked_mul` returns the exact
/// 256-bit product of its operands, or `None` when the product does not
/// fit in 256 bits.
#[verifier::external_body]
pub(crate) fn u256_mul(a: U256, b: U256) -> (r: Option<U256>)
    ensures
        match r {
            Some(p) => p.val() == a.val() * b.val(),
            None => a.val() * b.val() >= pow2_256(),
        },
{
    let x = (primitive_types::U256::from(a.hi) << 128u32) | primitive_types::U256::from(a.lo);
    let y = (primitive_types::U256::from(b.hi) << 128u32) | primitive_types::U256::from(b.lo);
    match x.checked_mul(y) {
        Some(p) => Some(U256 { hi: (p >> 128u32).low_u128(), lo: p.low_u128() }),
        None => None,
    }
}

/// Relies on `primitive_types::U256`: `checked_div` returns the quotient
/// rounded toward zero, or `None` exactly when the divisor is zero.
#[verifier::external_body]
pub(crate) fn u256_div(a: U256, b: U256) -> (r: Option<U256>)
    ensures
        match r {
            Some(q) => b.val() != 0 && q.val() == a.val() / b.val(),
            None => b.val() == 0,
        },
{
    let x = (primitive_types::U256::from(a.hi) << 128u32) | primitive_types::U256::from(a.lo);
    let y = (primitive_types::U256::from(b.hi) << 128u32) | primitive_types::U256::from(b.lo);
    match x.checked_div(y) {
        Some(q) => Some(U256 { hi: (q >> 128u32).low_u128(), lo: q.low_u128() }),
        None => None,
    }
}

/// Relies on `primitive_types::U256`: a multiply of two 128-bit values
/// cannot overflow 256 bits, and the final quotient is demanded to fit
/// back in 128 bits.
#[verifier::external_body]
pub fn u128_ratio(a: u128, num: u128, denom: u128) -> (r: u128)
    requires
        denom != 0,
        (a as int * num as int / denom as int) < pow2_128(),
    ensures
        r == (a as int * num as int / denom as int),
{
    ((primitive_types::U256::from(a) * primitive_types::U256::from(num))
        / primitive_types::U256::from(denom)).low_u128()
}

/// Volume of swap on the given token.
#[derive(Clone, Copy, Debug, PartialEq, Eq, Structural)]
pub struct SwapVolume {
    pub input: u128,
    pub output: u128,
}

impl Default for SwapVolume {
    fn default() -> (r: Self)
        ensures
            r.input == 0,
            r.output == 0,
    {
        SwapVolume { input: 0, output: 0 }
    }
}

} // verus!
