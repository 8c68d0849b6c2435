//! Auth gateway messages, and the user credentials that the client assembles
//! from a decoded token or a user lookup.
//!
//! Usernames, passwords and tokens are carried as plain strings here; the
//! messages that carry a password or a token derive no `Debug`, so that
//! neither is printed.
use vstd::prelude::*;
use vstd::string::*;

use crate::types::ep3;
use crate::types::{Ep3Account, Ep3Firm, Ep3Username};

verus! {

pub struct GetUserTokenRequest {
    pub username: String,
    pub password: String,
    pub expiration_seconds: i32,
}

pub struct GetUserTokenResponse {
    pub token: String,
}

/// Request to create an API key
pub struct CreateApiKeyRequest {
    pub username: String,
    pub password: String,
}

/// Response containing API key credentials
pub struct CreateApiKeyResponse {
    pub api_key: String,
    pub secret: String,
}

/// Request to revoke an API key
#[derive(Debug, Clone)]
pub struct RevokeApiKeyRequest {
    pub api_key: String,
}

/// Response from revoking an API key
#[derive(Debug, Clone)]
pub struct RevokeApiKeyResponse {
    pub message: String,
}

/// Request to get API keys for a user
#[derive(Debug, Clone)]
pub struct GetApiKeysRequest {
    pub username: String,
}

/// Response containing user's API keys
#[derive(Debug, Clone)]
pub struct GetApiKeysResponse {
    pub api_keys: Vec<String>,
}

/// Response from whoami endpoint
#[derive(Debug, Clone)]
pub struct WhoamiResponse {
    pub username: String,
}

/// Request to decode a token
pub struct DecodeTokenRequest {
    pub username: String,
    pub token: String,
}

/// Response from decode_token endpoint
#[derive(Debug, Clone)]
pub struct DecodeTokenResponse {
    pub username: String,
    pub ep3_username: Option<Ep3Username>,
    pub ep3_account: Option<Ep3Account>,
    pub is_admin_token: bool,
    pub can_place_orders: bool,
    pub enabled_2fa: bool,
}

/// User credentials returned from authentication
#[derive(Debug, Clone)]
pub struct UserCredentials {
    pub username: String,
    pub ep3_username: Ep3Username,
    pub ep3_account: Ep3Account,
    pub is_admin_token: bool,
    pub firm: Ep3Firm,
}

/// User information for admin operations
#[derive(Debug, Clone)]
pub struct UserInfo {
    pub username: String,
    pub ep3_username: Ep3Username,
    pub ep3_account: Ep3Account,
    pub is_valid: bool,
}

/// Request to create a user
pub struct CreateUserRequest {
    pub username: String,
    pub password: String,
    pub ep3_username: Option<Ep3Username>,
    pub ep3_account: Option<Ep3Account>,
}

/// Response from creating a user
#[derive(Debug, Clone)]
pub struct CreateUserResponse {
    pub message: String,
}

/// Request to delete a user
#[derive(Debug, Clone)]
pub struct DeleteUserRequest {
    pub username: String,
}

/// Response from get_user endpoint
#[derive(Debug, Clone)]
pub struct GetUserResponse {
    pub username: String,
    pub ep3_username: Ep3Username,
    pub ep3_account: Ep3Account,
    pub is_valid: bool,
}

impl UserCredentials {
    /// The credentials that a decoded token gives: the token must name both
    /// an EP3 username and an EP3 account (the username is checked first);
    /// the firm is that of the EP3 username, or `configured_firm`, or `CHI`.
    pub fn from_decode_response(decoded: DecodeTokenResponse, configured_firm: Option<&str>) -> (r:
        Result<UserCredentials, String>)
        ensures
            match r {
                Ok(c) => {
                    &&& decoded.ep3_username is Some
                    &&& decoded.ep3_account is Some
                    &&& c.username@ == decoded.username@
                    &&& c.ep3_username == decoded.ep3_username->0
                    &&& c.ep3_account == decoded.ep3_account->0
                    &&& c.is_admin_token == decoded.is_admin_token
                    &&& c.firm@ == ep3::firm_of(c.ep3_username@, ep3::opt_str_view(configured_firm))
                },
                Err(e) => {
                    ||| decoded.ep3_username is None && e@
                        == "Missing ep3_username in token response"@
                    ||| decoded.ep3_username is Some && decoded.ep3_account is None && e@
                        == "Missing ep3_account in token response"@
                },
            },
    {
        let DecodeTokenResponse { username, ep3_username, ep3_account, is_admin_token, .. } =
            decoded;
        let ep3_username = match ep3_username {
            Some(u) => u,
            None => {
                return Err(String::from_str("Missing ep3_username in token response"));
            },
        };
        let ep3_account = match ep3_account {
            Some(a) => a,
            None => {
                return Err(String::from_str("Missing ep3_account in token response"));
            },
        };
        let firm = Ep3Firm::from_ep3_username(&ep3_username, configured_firm);
        Ok(UserCredentials { username, ep3_username, ep3_account, is_admin_token, firm })
    }

    /// The credentials of a user looked up by an administrator: never an
    /// admin token; the firm as for a decoded token.
    pub fn from_user_info(info: UserInfo, configured_firm: Option<&str>) -> (r: UserCredentials)
        ensures
            r.username@ == info.username@,
            r.ep3_username == info.ep3_username,
            r.ep3_account == info.ep3_account,
            !r.is_admin_token,
            r.firm@ == ep3::firm_of(info.ep3_username@, ep3::opt_str_view(configured_firm)),
    {
        let UserInfo { username, ep3_username, ep3_account, .. } = info;
        let firm = Ep3Firm::from_ep3_username(&ep3_username, configured_firm);
        UserCredentials { username, ep3_username, ep3_account, is_admin_token: false, firm }
    }
}

} // verus!
