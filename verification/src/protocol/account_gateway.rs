//! Account gateway messages made of plain values only. Those that carry an
//! amount or an instant have their wire forms beside the client.
use vstd::prelude::*;

verus! {

/// Request to liquidate positions
#[derive(Debug, Clone)]
pub struct LiquidateRequest {
    pub username: String,
}

/// Response from liquidation request
#[derive(Debug, Clone)]
pub struct LiquidateResponse {
    pub successful_cancellations: Vec<String>,
    pub failed_cancellations: Vec<String>,
    pub successful_liquidations: Vec<String>,
    pub failed_liquidations: Vec<String>,
}

} // verus!
