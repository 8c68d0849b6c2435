use ax_exchange_sdk::types::order_id::OrderId;
use ax_exchange_sdk::types::symbol::Symbol;
use ax_exchange_sdk::types::tag::Tag;

#[test]
fn order_id_and_symbol_wrap_text() {
    let id = OrderId::new("O-1");
    assert_eq!(id.as_str(), "O-1");
    assert!(id.eq_str("O-1"));
    assert_eq!(id.into_inner(), "O-1".to_string());
    let s = Symbol::new("BTC-PERP");
    assert_eq!(s.as_str(), "BTC-PERP");
    assert!(!s.eq_str("ETH-PERP"));
    assert_eq!(s.into_inner(), "BTC-PERP".to_string());
}

#[test]
fn tag_accepts_word_characters() {
    let t = Tag::new("test_order_1").unwrap();
    assert_eq!(t.as_str(), "test_order_1");
    assert!(t.eq_str("test_order_1"));
    assert_eq!(t.into_inner(), "test_order_1".to_string());
}

#[test]
fn tag_errors() {
    assert_eq!(Tag::new("").unwrap_err(), "Tag cannot be empty");
    assert_eq!(
        Tag::new(&"a".repeat(51)).unwrap_err(),
        "Tag cannot be longer than 50 characters"
    );
    assert!(Tag::new(&"a".repeat(50)).is_ok());
    assert_eq!(
        Tag::new("bad tag!").unwrap_err(),
        "Tag contains invalid characters"
    );
}

#[test]
fn tag_pattern_result_decides() {
    assert!(Tag::from_pattern_match("abc", Some(true)).is_ok());
    assert_eq!(
        Tag::from_pattern_match("abc", Some(false)).unwrap_err(),
        "Tag contains invalid characters"
    );
    assert!(Tag::from_pattern_match("abc", None).is_err());
    assert_eq!(Tag::new_unchecked("x y").as_str(), "x y");
}
