use ax_exchange_sdk::protocol::auth_gateway::{DecodeTokenResponse, UserCredentials, UserInfo};
use ax_exchange_sdk::types::{Ep3Account, Ep3Username};

fn decoded(ep3_username: Option<Ep3Username>, ep3_account: Option<Ep3Account>) -> DecodeTokenResponse {
    DecodeTokenResponse {
        username: "alice".to_string(),
        ep3_username,
        ep3_account,
        is_admin_token: true,
        can_place_orders: true,
        enabled_2fa: false,
    }
}

#[test]
fn decoded_token_gives_credentials_with_the_username_firm() {
    let d = decoded(
        Some(Ep3Username::new("NYC", "ADX.USER.1")),
        Some(Ep3Account::new("ACC-1")),
    );
    let c = UserCredentials::from_decode_response(d, Some("LDN")).unwrap();
    assert_eq!(c.username, "alice");
    assert_eq!(c.ep3_username, Ep3Username::new("NYC", "ADX.USER.1"));
    assert_eq!(c.ep3_account.as_str(), "ACC-1");
    assert!(c.is_admin_token);
    assert_eq!(c.firm.firm_id(), "NYC");
}

#[test]
fn decoded_simple_username_takes_the_configured_firm() {
    let d = decoded(Some(Ep3Username::simple("admin")), Some(Ep3Account::new("ACC-2")));
    let c = UserCredentials::from_decode_response(d, Some("LDN")).unwrap();
    assert_eq!(c.firm.firm_id(), "LDN");
    let d = decoded(Some(Ep3Username::simple("admin")), Some(Ep3Account::new("ACC-2")));
    let c = UserCredentials::from_decode_response(d, None).unwrap();
    assert_eq!(c.firm.firm_id(), "CHI");
}

#[test]
fn decoded_token_without_ep3_username_is_refused() {
    let e = UserCredentials::from_decode_response(decoded(None, None), None).unwrap_err();
    assert_eq!(e, "Missing ep3_username in token response");
}

#[test]
fn decoded_token_without_ep3_account_is_refused() {
    let d = decoded(Some(Ep3Username::simple("admin")), None);
    let e = UserCredentials::from_decode_response(d, None).unwrap_err();
    assert_eq!(e, "Missing ep3_account in token response");
}

#[test]
fn looked_up_user_is_never_an_admin_token() {
    let info = UserInfo {
        username: "bob".to_string(),
        ep3_username: Ep3Username::from_full_path("firms/CHI/users/ADX.USER.971").unwrap(),
        ep3_account: Ep3Account::new("ACC-3"),
        is_valid: true,
    };
    let c = UserCredentials::from_user_info(info, Some("LDN"));
    assert_eq!(c.username, "bob");
    assert!(!c.is_admin_token);
    assert_eq!(c.firm.firm_id(), "CHI");
    assert_eq!(c.ep3_username.full_path(), "firms/CHI/users/ADX.USER.971");
}
