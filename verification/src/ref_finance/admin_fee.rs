use vstd::prelude::*;

verus! {

/// The share of the trade fee kept for protocol accounting, as a
/// basis-point numerator over `FEE_DIVISOR`.
#[derive(Clone, Copy, Debug, PartialEq, Eq, Structural)]
pub struct AdminFees {
    pub admin_fee_bps: u32,
}

impl AdminFees {
    pub fn new(admin_fee_bps: u32) -> (r: Self)
        ensures
            r.admin_fee_bps == admin_fee_bps,
    {
        AdminFees { admin_fee_bps }
    }
}

} // verus!
