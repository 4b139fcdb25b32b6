use vstd::prelude::*;

verus! {

/// Length of one billing month of a subscription: thirty days, in seconds.
pub const SECONDS_PER_MONTH: u64 = 2_592_000u64;

} // verus!
