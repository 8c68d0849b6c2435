//! RFQ request, response and event messages whose fields are the library's
//! own types. The messages that hold an instant, a quantity or a trade side
//! have their wire forms beside the client.
use vstd::prelude::*;

use crate::types::{QuoteId, RequestId, RfqQuoteState, RfqRequestState};

verus! {

#[derive(Debug, Clone)]
pub struct CancelQuoteRequest {
    pub request_id: RequestId,
}

/// Lists the quote requests, of the given states only where any are given.
#[derive(Debug, Clone)]
pub struct GetQuoteRequests {
    pub states: Option<Vec<RfqRequestState>>,
}

#[derive(Debug, Clone)]
pub struct CancelQuote {
    pub quote_id: QuoteId,
}

/// Lists the quotes of a request, of the given states only where any are
/// given.
#[derive(Debug, Clone)]
pub struct GetQuotes {
    pub request_id: RequestId,
    pub states: Option<Vec<RfqQuoteState>>,
}

#[derive(Debug, Clone)]
pub struct SubmitQuoteRequestResponse {
    pub request_id: RequestId,
    pub client_request_id: Option<u64>,
}

#[derive(Debug, Clone)]
pub struct SubmitQuoteResponse {
    pub quote_id: QuoteId,
    pub client_quote_id: Option<u64>,
}

#[derive(Debug, Clone)]
pub struct AcceptQuoteResponse {
    pub trade_id: String,
}

#[derive(Debug, Clone)]
pub struct CancelAck {
    pub ok: bool,
}

#[derive(Debug, Clone)]
pub struct RfqReject {
    pub reason: String,
    pub message: Option<String>,
}

#[derive(Debug, Clone)]
pub struct QuoteRequestRemoved {
    pub request_id: RequestId,
    pub state: RfqRequestState,
}

#[derive(Debug, Clone)]
pub struct QuoteRemoved {
    pub request_id: RequestId,
    pub quote_id: QuoteId,
    pub state: RfqQuoteState,
}

} // verus!
