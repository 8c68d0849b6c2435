use ax_exchange_sdk::types::ep3::{Ep3Account, Ep3Firm, Ep3Username};

#[test]
fn username_parses_structured_path() {
    let u = Ep3Username::from_full_path("firms/CHI/users/ADX.USER.971").unwrap();
    assert_eq!(u, Ep3Username::with_firm("CHI", "ADX.USER.971"));
    assert_eq!(u.firm_id(), Some("CHI"));
    assert_eq!(u.user_id(), "ADX.USER.971");
    assert!(u.has_firm());
    assert!(!u.is_simple());
}

#[test]
fn username_parses_simple_name() {
    let u = Ep3Username::from_full_path("admin").unwrap();
    assert_eq!(u, Ep3Username::simple("admin"));
    assert_eq!(u.firm_id(), None);
    assert_eq!(u.user_id(), "admin");
    assert!(u.is_simple());
}

#[test]
fn username_rejects_other_shapes() {
    assert_eq!(
        Ep3Username::from_full_path("firms/CHI").unwrap_err(),
        "Invalid EP3 username format: firms/CHI"
    );
    assert!(Ep3Username::from_full_path("teams/CHI/users/X").is_err());
    assert!(Ep3Username::from_full_path("firms/CHI/people/X").is_err());
    assert!(Ep3Username::from_full_path("firms/CHI/users/X/extra").is_err());
}

#[test]
fn username_full_path_round_trips() {
    let u = Ep3Username::new("CHI", "ADX.USER.971");
    assert_eq!(u.full_path(), "firms/CHI/users/ADX.USER.971");
    assert_eq!(u.to_string(), "firms/CHI/users/ADX.USER.971");
    assert_eq!(Ep3Username::from_full_path(&u.full_path()).unwrap(), u);
    assert_eq!(u.clone().into_string(), "firms/CHI/users/ADX.USER.971");
    assert_eq!(Ep3Username::default(), Ep3Username::simple(""));
}

#[test]
fn username_extracts_firm() {
    let u = Ep3Username::with_firm("NYC", "u1");
    assert_eq!(u.extract_firm(Some("LDN")), Ep3Firm::new("NYC"));
    let s = Ep3Username::simple("admin");
    assert_eq!(s.extract_firm(Some("LDN")), Ep3Firm::new("LDN"));
    assert_eq!(s.extract_firm(None), Ep3Firm::new("CHI"));
    assert_eq!(Ep3Firm::from_ep3_username(&s, None).firm_id(), "CHI");
}

#[test]
fn firm_paths() {
    let f = Ep3Firm::from_full_path("firms/CHI").unwrap();
    assert_eq!(f.firm_id(), "CHI");
    assert_eq!(f.as_str(), "CHI");
    assert_eq!(f.full_path(), "firms/CHI");
    assert_eq!(f.to_string(), "CHI");
    assert!(f.eq_str("CHI"));
    assert_eq!(
        Ep3Firm::from_full_path("CHI").unwrap_err(),
        "Invalid firm path format: CHI"
    );
    assert_eq!(Ep3Firm::from_id_or_path("firms/NYC"), Ep3Firm::new("NYC"));
    assert_eq!(Ep3Firm::from_id_or_path("NYC").into_string(), "NYC");
}

#[test]
fn account_wraps_text() {
    let a = Ep3Account::new("ACC-1");
    assert_eq!(a.as_str(), "ACC-1");
    assert_eq!(a.to_string(), "ACC-1");
    assert_eq!(a.into_inner(), "ACC-1".to_string());
}
