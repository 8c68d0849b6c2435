pub mod account_gateway;
pub mod auth_gateway;
pub mod pagination;
pub mod rfq;
pub mod sort;
pub mod time_range;
