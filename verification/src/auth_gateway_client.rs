//! Configuration of the auth gateway client.
use vstd::prelude::*;
use vstd::string::*;

use core::time::Duration;

verus! {

/// Name for the `Duration` that `Duration::from_secs(secs)` returns.
pub uninterp spec fn duration_from_secs(secs: u64) -> Duration;

/// Calls `core::time::Duration::from_secs`.
#[verifier::external_body]
fn make_duration(secs: u64) -> (r: Duration)
    ensures
        r == duration_from_secs(secs),
{
    Duration::from_secs(secs)
}

/// Configuration for auth gateway client.
#[derive(Debug, Clone)]
pub struct AuthGatewayConfig {
    pub base_url: String,
    pub admin_secret_key: Option<String>,
    pub timeout_seconds: u64,
    pub max_retries: u32,
    pub pool_max_idle_per_host: usize,
}

pub open spec fn opt_string_view(o: Option<String>) -> Option<Seq<char>> {
    match o {
        Some(s) => Some(s@),
        None => None,
    }
}

impl AuthGatewayConfig {
    /// The request timeout.
    pub fn timeout(&self) -> (r: Duration)
        ensures
            r == duration_from_secs(self.timeout_seconds),
    {
        make_duration(self.timeout_seconds)
    }

    /// Refuses a configuration without a base URL.
    pub fn validate(&self) -> (r: Result<(), String>)
        ensures
            r is Err <==> self.base_url@.len() == 0,
            r matches Err(e) ==> e@ == "base_url cannot be empty"@,
    {
        if self.base_url.as_str().is_empty() {
            return Err(String::from_str("base_url cannot be empty"));
        }
        Ok(())
    }

    /// The configuration read from the environment, given the values of
    /// `AUTH_GATEWAY_URL` and `DECODE_TOKEN_SECRET_KEY`: the URL is required;
    /// timeout, retries and pool size take their defaults (10 s, 3, 10).
    pub fn from_env_values(base_url: Option<String>, admin_secret_key: Option<String>) -> (r:
        Result<Self, String>)
        ensures
            match r {
                Ok(c) => base_url is Some && c.base_url@ == base_url->0@ && opt_string_view(
                    c.admin_secret_key,
                ) == opt_string_view(admin_secret_key) && c.timeout_seconds == 10
                    && c.max_retries == 3 && c.pool_max_idle_per_host == 10,
                Err(e) => base_url is None && e@
                    == "AUTH_GATEWAY_URL environment variable not set"@,
            },
    {
        match base_url {
            Some(base_url) => Ok(AuthGatewayConfig {
                base_url,
                admin_secret_key,
                timeout_seconds: 10,
                max_retries: 3,
                pool_max_idle_per_host: 10,
            }),
            None => Err(String::from_str("AUTH_GATEWAY_URL environment variable not set")),
        }
    }
}

} // verus!
