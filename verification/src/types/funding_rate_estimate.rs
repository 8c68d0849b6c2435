//! Status of a live funding-rate estimate.
use vstd::prelude::*;

verus! {

#[derive(Debug, Clone, Copy, PartialEq, Eq, Structural)]
pub enum FundingRateEstimateStatus {
    Ready,
    SettlementPending,
    Unavailable,
}

} // verus!
