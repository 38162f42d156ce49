//! The pair-volume response body: the accumulated totals of one pair.

use vstd::prelude::*;

verus! {

/// The accumulated totals returned for one pair.
#[derive(Debug, Clone, Copy, PartialEq, Eq, Structural)]
pub struct Body {
    /// The accumulated amount.
    pub amount: u64,
    /// The number of accumulated swaps.
    pub count: u64,
    /// The accumulated fees.
    pub fee: u64,
}

impl Body {
    /// A shortcut constructor.
    pub fn new(amount: u64, count: u64, fee: u64) -> (r: Self)
        ensures
            r == (Body { amount, count, fee }),
    {
        Self { amount, count, fee }
    }
}

} // verus!
