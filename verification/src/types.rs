//! Domain types of the exchange.
pub mod ep3;
pub mod funding_rate_estimate;
pub mod order_id;
pub mod rfq;
pub mod symbol;
pub mod tag;

pub use ep3::{Ep3Account, Ep3Firm, Ep3Username};
pub use funding_rate_estimate::FundingRateEstimateStatus;
pub use order_id::OrderId;
pub use rfq::{QuoteId, RequestId, RfqQuote, RfqQuoteSides, RfqQuoteState, RfqRequestState};
pub use symbol::Symbol;
pub use tag::Tag;
