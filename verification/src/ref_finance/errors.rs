use vstd::prelude::*;

verus! {

/// Every way a pool construction or a swap quote can fail.
#[derive(Clone, Copy, Debug, PartialEq, Eq, Structural)]
pub enum SwapError {
    /// A token decimal exponent lies outside the accepted range.
    InvalidDecimal,
    /// An amplification coefficient lies outside the accepted range.
    InvalidAmplification,
    /// The total fee is not strictly below the basis-point divisor.
    InvalidFee,
    /// The input and output token of a swap are the same.
    DuplicateToken,
    /// A token index does not refer to a token of the pool.
    UnknownToken,
    /// An intermediate value exceeds the working integer width, or a
    /// division hit a zero divisor.
    ArithmeticOverflow,
    /// The iterative solver exhausted its iteration bound.
    NotConverged,
}

} // verus!
