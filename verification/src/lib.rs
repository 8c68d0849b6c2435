pub mod auth_gateway_client;
pub mod external;
pub mod protocol;
pub mod request;
pub mod text;
pub mod types;
