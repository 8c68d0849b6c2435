use ax_exchange_sdk::types::rfq::{
    validate_rfq_id, QuoteId, RequestId, RfqQuote, RfqQuoteSides, RfqQuoteState, RfqRequestState,
};
use rust_decimal::Decimal;

#[test]
fn request_id_generate_uses_request_prefix() {
    let request_id = RequestId::generate();

    assert!(request_id.as_str().starts_with("R-"));
    assert!(request_id.ulid().is_ok());
}

#[test]
fn quote_id_generate_uses_quote_prefix() {
    let quote_id = QuoteId::generate();

    assert!(quote_id.as_str().starts_with("Q-"));
    assert!(quote_id.ulid().is_ok());
}

#[test]
fn request_id_formats_and_parses_prefixed_crockford_base32() {
    let id = RequestId::from_ulid(0x1234);

    assert_eq!(id.to_string(), "R-000000000000000000000004HM");
    assert_eq!(
        "R-000000000000000000000004HM".parse::<RequestId>().unwrap(),
        id
    );
}

#[test]
fn quote_id_formats_and_parses_prefixed_crockford_base32() {
    let id = QuoteId::from_ulid(0xabcd);

    assert_eq!(id.to_string(), "Q-00000000000000000000001AYD");
    assert_eq!(
        "Q-00000000000000000000001AYD".parse::<QuoteId>().unwrap(),
        id
    );
}

#[test]
fn rfq_ids_serialize_as_prefixed_crockford_base32_strings() {
    assert_eq!(
        serde_json::to_string(RequestId::from_ulid(0x1234).as_str()).unwrap(),
        "\"R-000000000000000000000004HM\""
    );
    assert_eq!(
        serde_json::to_string(QuoteId::from_ulid(0xabcd).as_str()).unwrap(),
        "\"Q-00000000000000000000001AYD\""
    );
}

#[test]
fn rfq_ids_deserialize_from_prefixed_crockford_base32_strings() {
    let raw: String = serde_json::from_str("\"R-000000000000000000000004HM\"").unwrap();
    assert_eq!(RequestId::new_unchecked(&raw), RequestId::from_ulid(0x1234));
    let raw: String = serde_json::from_str("\"Q-00000000000000000000001AYD\"").unwrap();
    assert_eq!(QuoteId::new_unchecked(&raw), QuoteId::from_ulid(0xabcd));
}

#[test]
fn rfq_ids_parse_lowercase_crockford_base32_strings() {
    assert_eq!(
        "R-000000000000000000000004hm".parse::<RequestId>().unwrap(),
        RequestId::from_ulid(0x1234)
    );
    assert_eq!(
        "Q-00000000000000000000001ayd".parse::<QuoteId>().unwrap(),
        QuoteId::from_ulid(0xabcd)
    );
}

#[test]
fn rfq_ids_reject_invalid_format() {
    assert!("000000000000000000000004HM".parse::<RequestId>().is_err());
    assert!("R-000000000000000000000004HM".parse::<QuoteId>().is_err());
    assert!("Q-00000000000000000000001AYD".parse::<RequestId>().is_err());
    assert!(
        "000000-0000-0000-0000-0000-04HM"
            .parse::<RequestId>()
            .is_err()
    );
    assert!(
        "00000000-0000-0000-0000-000000001234"
            .parse::<QuoteId>()
            .is_err()
    );
}

#[test]
fn rfq_quote_sides_display_matches_json_wire_tokens() {
    assert_eq!(RfqQuoteSides::Bid.to_string(), "B");
    assert_eq!(RfqQuoteSides::Ask.to_string(), "A");
    assert_eq!(RfqQuoteSides::BidAndAsk.to_string(), "BA");
    assert_eq!(
        serde_json::to_string(RfqQuoteSides::BidAndAsk.as_str()).unwrap(),
        "\"BA\""
    );
}

#[test]
fn rfq_id_errors_name_the_problem() {
    assert_eq!(
        RequestId::new("X-000000000000000000000004HM").unwrap_err(),
        "invalid request ID format"
    );
    assert_eq!(
        QuoteId::new("Q-123").unwrap_err(),
        "invalid ULID in quote ID: invalid length"
    );
    assert_eq!(
        RequestId::new("R-00000000000000000000000IHM").unwrap_err(),
        "invalid ULID in request ID: invalid character"
    );
}

#[test]
fn rfq_id_validate_and_ulid() {
    let id = RequestId::from_ulid(42);
    assert!(id.validate().is_ok());
    assert_eq!(id.ulid().unwrap(), 42);
    assert!(RequestId::new_unchecked("R-oops").validate().is_err());
    assert!(QuoteId::new_unchecked("R-000000000000000000000004HM").ulid().is_err());
    assert!(validate_rfq_id("Q-00000000000000000000001AYD", "Q-", "quote").is_ok());
}

#[test]
fn rfq_id_parse_normalises_case() {
    let id = RequestId::new("R-000000000000000000000004hm").unwrap();
    assert_eq!(id.as_str(), "R-000000000000000000000004HM");
    assert_eq!(id.into_inner(), "R-000000000000000000000004HM".to_string());
}

#[test]
fn rfq_quote_sides_includes() {
    assert!(RfqQuoteSides::Bid.includes_bid());
    assert!(!RfqQuoteSides::Bid.includes_ask());
    assert!(RfqQuoteSides::Ask.includes_ask());
    assert!(!RfqQuoteSides::Ask.includes_bid());
    assert!(RfqQuoteSides::BidAndAsk.includes_bid());
    assert!(RfqQuoteSides::BidAndAsk.includes_ask());
}

#[test]
fn rfq_quote_prices_and_sides() {
    let bid = Decimal::new(99, 0);
    let ask = Decimal::new(101, 0);
    let both = RfqQuote::BidAndAsk { bid, ask };
    assert_eq!(both.bid(), Some(bid));
    assert_eq!(both.ask(), Some(ask));
    assert_eq!(both.sides(), RfqQuoteSides::BidAndAsk);
    let only_bid = RfqQuote::Bid { bid };
    assert_eq!(only_bid.ask(), None);
    assert_eq!(only_bid.sides(), RfqQuoteSides::Bid);
    let only_ask = RfqQuote::Ask { ask };
    assert_eq!(only_ask.bid(), None);
    assert_eq!(only_ask.sides(), RfqQuoteSides::Ask);
}

#[test]
fn rfq_states_wire_text() {
    assert_eq!(RfqRequestState::Settling.as_str(), "SETTLING");
    assert_eq!(RfqRequestState::parse("EXPIRED"), Some(RfqRequestState::Expired));
    assert_eq!(RfqRequestState::parse("active"), None);
    assert_eq!(RfqQuoteState::Accepted.as_str(), "ACCEPTED");
    assert_eq!(RfqQuoteState::parse("CANCELED"), Some(RfqQuoteState::Canceled));
    assert_eq!(RfqQuoteState::parse("SETTLED"), None);
}

#[test]
fn rfq_states_read_back_their_wire_text() {
    for st in [
        RfqRequestState::Active,
        RfqRequestState::Settling,
        RfqRequestState::Settled,
        RfqRequestState::Canceled,
        RfqRequestState::Expired,
    ] {
        assert_eq!(RfqRequestState::parse(st.as_str()), Some(st));
    }
    for st in [
        RfqQuoteState::Active,
        RfqQuoteState::Accepted,
        RfqQuoteState::Canceled,
        RfqQuoteState::Expired,
    ] {
        assert_eq!(RfqQuoteState::parse(st.as_str()), Some(st));
    }
}
