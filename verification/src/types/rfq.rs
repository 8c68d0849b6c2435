//! Request-for-quote identifiers, sides, states and quotes.
use vstd::prelude::*;
use vstd::string::*;

use rust_decimal::Decimal;

use crate::text;
use crate::text::{concat, str_eq, strip_prefix, to_ascii_uppercase};

verus! {

/// Name for the text `ulid::Ulid(value).to_string()` writes: the value in
/// Crockford base32.
pub uninterp spec fn ulid_text(value: u128) -> Seq<char>;

/// Name for what `ulid::Ulid::from_string(text)` answers: the value, or the
/// text of its `DecodeError`.
pub uninterp spec fn ulid_parse(text: Seq<char>) -> Result<u128, Seq<char>>;

/// A character of the upper-case Crockford base32 alphabet's range: an ASCII
/// digit or an upper-case ASCII letter.
pub open spec fn is_upper_base32_char(c: char) -> bool {
    (48 <= c as u32 && c as u32 <= 57) || (65 <= c as u32 && c as u32 <= 90)
}

/// Text of upper-case base32 characters only.
pub open spec fn is_upper_base32(s: Seq<char>) -> bool {
    forall|i: int| 0 <= i < s.len() ==> is_upper_base32_char(#[trigger] s[i])
}

pub open spec fn ulid_ok(value: u128) -> Result<u128, Seq<char>> {
    Ok(value)
}

/// Calls `ulid::Ulid(value).to_string()`. As the crate's source shows, the
/// text is 26 characters of the alphabet `0-9A-Z` (without I, L, O, U), and
/// `Ulid::from_string` reads it back as `value`.
#[verifier::external_body]
fn ulid_to_string(value: u128) -> (r: String)
    ensures
        r@ == ulid_text(value),
        r@.len() == 26,
        is_upper_base32(r@),
        ulid_parse(r@) == ulid_ok(value),
{
    ulid::Ulid(value).to_string()
}

/// Calls `ulid::Ulid::from_string(text)`; an error is handed on as the text
/// of its `DecodeError`.
#[verifier::external_body]
fn ulid_from_string(text: &str) -> (r: Result<u128, String>)
    ensures
        ulid_result_view(r) == ulid_parse(text@),
{
    match ulid::Ulid::from_string(text) {
        Ok(u) => Ok(u.0),
        Err(e) => Err(e.to_string()),
    }
}

/// Calls `ulid::Ulid::new()`, which reads the clock and a random source;
/// nothing is promised of the value.
#[verifier::external_body]
fn ulid_generate() -> (r: u128) {
    ulid::Ulid::new().0
}

/// Reading the ULID of an RFQ ID: the ID must start with `prefix`; the rest,
/// upper-cased (Crockford base32 is case-insensitive), must be a ULID.
pub open spec fn extract_ulid_spec(id: Seq<char>, prefix: Seq<char>, label: Seq<char>) -> Result<
    u128,
    Seq<char>,
> {
    match text::strip_prefix_spec(id, prefix) {
        None => Err("invalid "@ + label + " ID format"@),
        Some(raw) => match ulid_parse(text::ascii_uppercase(raw)) {
            Ok(v) => Ok(v),
            Err(e) => Err("invalid ULID in "@ + label + " ID: "@ + e),
        },
    }
}

pub open spec fn ulid_result_view(r: Result<u128, String>) -> Result<u128, Seq<char>> {
    match r {
        Ok(v) => Ok(v),
        Err(e) => Err(e@),
    }
}

pub open spec fn unit_result_view(r: Result<(), String>) -> Result<(), Seq<char>> {
    match r {
        Ok(()) => Ok(()),
        Err(e) => Err(e@),
    }
}

pub open spec fn discard_value(r: Result<u128, Seq<char>>) -> Result<(), Seq<char>> {
    match r {
        Ok(_) => Ok(()),
        Err(e) => Err(e),
    }
}

fn extract_ulid(id: &str, prefix: &str, label: &str) -> (r: Result<u128, String>)
    ensures
        ulid_result_view(r) == extract_ulid_spec(id@, prefix@, label@),
{
    match strip_prefix(id, prefix) {
        None => {
            let a = concat("invalid ", label);
            Err(concat(a.as_str(), " ID format"))
        },
        Some(raw) => {
            let upper = to_ascii_uppercase(raw);
            match ulid_from_string(upper.as_str()) {
                Ok(v) => Ok(v),
                Err(e) => {
                    let a = concat("invalid ULID in ", label);
                    let b = concat(a.as_str(), " ID: ");
                    Err(concat(b.as_str(), e.as_str()))
                },
            }
        },
    }
}

/// Checks that `id` is `prefix` followed by a ULID.
pub fn validate_rfq_id(id: &str, prefix: &str, label: &str) -> (r: Result<(), String>)
    ensures
        unit_result_view(r) == discard_value(extract_ulid_spec(id@, prefix@, label@)),
{
    match extract_ulid(id, prefix, label) {
        Ok(_) => Ok(()),
        Err(e) => Err(e),
    }
}

/// An ID written as `prefix` and the text of a ULID reads back as that ULID.
pub proof fn lemma_rfq_id_round_trip(prefix: Seq<char>, label: Seq<char>, value: u128)
    requires
        ulid_parse(ulid_text(value)) == Ok::<u128, Seq<char>>(value),
        is_upper_base32(ulid_text(value)),
    ensures
        extract_ulid_spec(prefix + ulid_text(value), prefix, label) == Ok::<u128, Seq<char>>(
            value,
        ),
{
    let t = ulid_text(value);
    let id = prefix + t;
    assert(prefix.is_prefix_of(id)) by {
        assert(id.subrange(0, prefix.len() as int) =~= prefix);
    }
    assert(id.subrange(prefix.len() as int, id.len() as int) =~= t);
    assert(text::ascii_uppercase(t) =~= t) by {
        assert forall|i: int| 0 <= i < t.len() implies text::ascii_upper_char(#[trigger] t[i])
            == t[i] by {
            assert(is_upper_base32_char(t[i]));
        }
    }
}

/// Prefix of request IDs.
pub open spec fn request_prefix() -> Seq<char> {
    "R-"@
}

/// Prefix of quote IDs.
pub open spec fn quote_prefix() -> Seq<char> {
    "Q-"@
}

/// ID of an RFQ request: `R-` followed by a ULID in Crockford base32.
#[derive(Debug, Clone, PartialEq, Eq, PartialOrd, Ord, Hash)]
pub struct RequestId(String);

impl View for RequestId {
    type V = Seq<char>;

    closed spec fn view(&self) -> Seq<char> {
        self.0@
    }
}

pub open spec fn request_id_result_view(r: Result<RequestId, String>) -> Result<
    Seq<char>,
    Seq<char>,
> {
    match r {
        Ok(id) => Ok(id@),
        Err(e) => Err(e@),
    }
}

/// What reading an ID of the given prefix yields: the ID rewritten from its
/// ULID, or the error of `extract_ulid_spec`.
pub open spec fn parse_rfq_id_spec(id: Seq<char>, prefix: Seq<char>, label: Seq<char>) -> Result<
    Seq<char>,
    Seq<char>,
> {
    match extract_ulid_spec(id, prefix, label) {
        Ok(v) => Ok(prefix + ulid_text(v)),
        Err(e) => Err(e),
    }
}

impl RequestId {
    /// Parses a request ID; the ID is written back from its ULID.
    pub fn new(id: &str) -> (r: Result<Self, String>)
        ensures
            request_id_result_view(r) == parse_rfq_id_spec(id@, request_prefix(), "request"@),
    {
        match extract_ulid(id, "R-", "request") {
            Ok(v) => Ok(Self::from_ulid(v)),
            Err(e) => Err(e),
        }
    }

    /// Wraps `id` without checking it.
    pub fn new_unchecked(id: &str) -> (r: Self)
        ensures
            r@ == id@,
    {
        RequestId(id.to_owned())
    }

    /// A fresh ID from a new ULID.
    pub fn generate() -> (r: Self)
        ensures
            exists|v: u128| r@ == request_prefix() + ulid_text(v),
    {
        Self::from_ulid(ulid_generate())
    }

    /// The ID of a ULID. Reading it back gives that ULID.
    pub fn from_ulid(ulid: u128) -> (r: Self)
        ensures
            r@ == request_prefix() + ulid_text(ulid),
            extract_ulid_spec(r@, request_prefix(), "request"@) == Ok::<u128, Seq<char>>(ulid),
    {
        let t = ulid_to_string(ulid);
        proof {
            lemma_rfq_id_round_trip(request_prefix(), "request"@, ulid);
        }
        RequestId(concat("R-", t.as_str()))
    }

    /// Checks that the ID is `R-` followed by a ULID.
    pub fn validate(&self) -> (r: Result<(), String>)
        ensures
            unit_result_view(r) == discard_value(
                extract_ulid_spec(self@, request_prefix(), "request"@),
            ),
    {
        validate_rfq_id(self.0.as_str(), "R-", "request")
    }

    /// The ULID of the ID.
    pub fn ulid(&self) -> (r: Result<u128, String>)
        ensures
            ulid_result_view(r) == extract_ulid_spec(self@, request_prefix(), "request"@),
    {
        extract_ulid(self.0.as_str(), "R-", "request")
    }

    pub fn as_str(&self) -> (r: &str)
        ensures
            r@ == self@,
    {
        self.0.as_str()
    }

    /// The ID as display text.
    pub fn to_string(&self) -> (r: String)
        ensures
            r@ == self@,
    {
        self.0.clone()
    }

    /// Converts into the inner string value.
    pub fn into_inner(self) -> (r: String)
        ensures
            r@ == self@,
    {
        self.0
    }
}

impl AsRef<str> for RequestId {
    fn as_ref(&self) -> (r: &str)
        ensures
            r@ == self@,
    {
        self.0.as_str()
    }
}

impl std::borrow::Borrow<str> for RequestId {
    fn borrow(&self) -> (r: &str)
        ensures
            <str as View>::view(r) == self@,
    {
        self.0.as_str()
    }
}

impl std::str::FromStr for RequestId {
    type Err = String;

    fn from_str(s: &str) -> (r: Result<Self, Self::Err>)
        ensures
            request_id_result_view(r) == parse_rfq_id_spec(s@, request_prefix(), "request"@),
    {
        RequestId::new(s)
    }
}

/// ID of an RFQ quote: `Q-` followed by a ULID in Crockford base32.
#[derive(Debug, Clone, PartialEq, Eq, PartialOrd, Ord, Hash)]
pub struct QuoteId(String);

impl View for QuoteId {
    type V = Seq<char>;

    closed spec fn view(&self) -> Seq<char> {
        self.0@
    }
}

pub open spec fn quote_id_result_view(r: Result<QuoteId, String>) -> Result<
    Seq<char>,
    Seq<char>,
> {
    match r {
        Ok(id) => Ok(id@),
        Err(e) => Err(e@),
    }
}

impl QuoteId {
    /// Parses a quote ID; the ID is written back from its ULID.
    pub fn new(id: &str) -> (r: Result<Self, String>)
        ensures
            quote_id_result_view(r) == parse_rfq_id_spec(id@, quote_prefix(), "quote"@),
    {
        match extract_ulid(id, "Q-", "quote") {
            Ok(v) => Ok(Self::from_ulid(v)),
            Err(e) => Err(e),
        }
    }

    /// Wraps `id` without checking it.
    pub fn new_unchecked(id: &str) -> (r: Self)
        ensures
            r@ == id@,
    {
        QuoteId(id.to_owned())
    }

    /// A fresh ID from a new ULID.
    pub fn generate() -> (r: Self)
        ensures
            exists|v: u128| r@ == quote_prefix() + ulid_text(v),
    {
        Self::from_ulid(ulid_generate())
    }

    /// The ID of a ULID. Reading it back gives that ULID.
    pub fn from_ulid(ulid: u128) -> (r: Self)
        ensures
            r@ == quote_prefix() + ulid_text(ulid),
            extract_ulid_spec(r@, quote_prefix(), "quote"@) == Ok::<u128, Seq<char>>(ulid),
    {
        let t = ulid_to_string(ulid);
        proof {
            lemma_rfq_id_round_trip(quote_prefix(), "quote"@, ulid);
        }
        QuoteId(concat("Q-", t.as_str()))
    }

    /// Checks that the ID is `Q-` followed by a ULID.
    pub fn validate(&self) -> (r: Result<(), String>)
        ensures
            unit_result_view(r) == discard_value(
                extract_ulid_spec(self@, quote_prefix(), "quote"@),
            ),
    {
        validate_rfq_id(self.0.as_str(), "Q-", "quote")
    }

    /// The ULID of the ID.
    pub fn ulid(&self) -> (r: Result<u128, String>)
        ensures
            ulid_result_view(r) == extract_ulid_spec(self@, quote_prefix(), "quote"@),
    {
        extract_ulid(self.0.as_str(), "Q-", "quote")
    }

    pub fn as_str(&self) -> (r: &str)
        ensures
            r@ == self@,
    {
        self.0.as_str()
    }

    /// The ID as display text.
    pub fn to_string(&self) -> (r: String)
        ensures
            r@ == self@,
    {
        self.0.clone()
    }

    /// Converts into the inner string value.
    pub fn into_inner(self) -> (r: String)
        ensures
            r@ == self@,
    {
        self.0
    }
}

impl AsRef<str> for QuoteId {
    fn as_ref(&self) -> (r: &str)
        ensures
            r@ == self@,
    {
        self.0.as_str()
    }
}

impl std::borrow::Borrow<str> for QuoteId {
    fn borrow(&self) -> (r: &str)
        ensures
            <str as View>::view(r) == self@,
    {
        self.0.as_str()
    }
}

impl std::str::FromStr for QuoteId {
    type Err = String;

    fn from_str(s: &str) -> (r: Result<Self, Self::Err>)
        ensures
            quote_id_result_view(r) == parse_rfq_id_spec(s@, quote_prefix(), "quote"@),
    {
        QuoteId::new(s)
    }
}

/// Which sides of the book a quote (or a request for quotes) covers.
#[derive(Debug, Clone, Copy, PartialEq, Eq, Structural)]
pub enum RfqQuoteSides {
    Bid,
    Ask,
    BidAndAsk,
}

impl RfqQuoteSides {
    pub fn includes_bid(self) -> (r: bool)
        ensures
            r == (self == RfqQuoteSides::Bid || self == RfqQuoteSides::BidAndAsk),
    {
        matches!(self, RfqQuoteSides::Bid | RfqQuoteSides::BidAndAsk)
    }

    pub fn includes_ask(self) -> (r: bool)
        ensures
            r == (self == RfqQuoteSides::Ask || self == RfqQuoteSides::BidAndAsk),
    {
        matches!(self, RfqQuoteSides::Ask | RfqQuoteSides::BidAndAsk)
    }

    /// The wire token: `B`, `A` or `BA`.
    pub fn as_str(self) -> (r: &'static str)
        ensures
            r@ == sides_text(self),
    {
        match self {
            RfqQuoteSides::Bid => "B",
            RfqQuoteSides::Ask => "A",
            RfqQuoteSides::BidAndAsk => "BA",
        }
    }

    /// The wire token as display text.
    pub fn to_string(&self) -> (r: String)
        ensures
            r@ == sides_text(*self),
    {
        self.as_str().to_owned()
    }
}

pub open spec fn sides_text(s: RfqQuoteSides) -> Seq<char> {
    match s {
        RfqQuoteSides::Bid => "B"@,
        RfqQuoteSides::Ask => "A"@,
        RfqQuoteSides::BidAndAsk => "BA"@,
    }
}

/// Life-cycle state of an RFQ request.
#[derive(Debug, Clone, Copy, PartialEq, Eq, Structural)]
pub enum RfqRequestState {
    Active,
    Settling,
    Settled,
    Canceled,
    Expired,
}

pub open spec fn request_state_text(s: RfqRequestState) -> Seq<char> {
    match s {
        RfqRequestState::Active => "ACTIVE"@,
        RfqRequestState::Settling => "SETTLING"@,
        RfqRequestState::Settled => "SETTLED"@,
        RfqRequestState::Canceled => "CANCELED"@,
        RfqRequestState::Expired => "EXPIRED"@,
    }
}

/// The request state whose wire text is `s`, if any.
pub open spec fn parse_request_state(s: Seq<char>) -> Option<RfqRequestState> {
    if s == "ACTIVE"@ {
        Some(RfqRequestState::Active)
    } else if s == "SETTLING"@ {
        Some(RfqRequestState::Settling)
    } else if s == "SETTLED"@ {
        Some(RfqRequestState::Settled)
    } else if s == "CANCELED"@ {
        Some(RfqRequestState::Canceled)
    } else if s == "EXPIRED"@ {
        Some(RfqRequestState::Expired)
    } else {
        None
    }
}

/// A request state's wire text reads back as that state, and only that
/// state's text does.
pub proof fn lemma_request_state_round_trip(st: RfqRequestState, s: Seq<char>)
    ensures
        parse_request_state(request_state_text(st)) == Some(st),
        parse_request_state(s) == Some(st) <==> request_state_text(st) == s,
{
    reveal_strlit("ACTIVE");
    reveal_strlit("SETTLING");
    reveal_strlit("SETTLED");
    reveal_strlit("CANCELED");
    reveal_strlit("EXPIRED");
    assert("ACTIVE"@.len() == 6 && "SETTLING"@.len() == 8 && "SETTLED"@.len() == 7);
    assert("CANCELED"@.len() == 8 && "EXPIRED"@.len() == 7);
    assert("SETTLING"@[0] != "CANCELED"@[0]);
    assert("SETTLED"@[0] != "EXPIRED"@[0]);
}

impl RfqRequestState {
    /// The wire text, e.g. `ACTIVE`.
    pub fn as_str(self) -> (r: &'static str)
        ensures
            r@ == request_state_text(self),
    {
        match self {
            RfqRequestState::Active => "ACTIVE",
            RfqRequestState::Settling => "SETTLING",
            RfqRequestState::Settled => "SETTLED",
            RfqRequestState::Canceled => "CANCELED",
            RfqRequestState::Expired => "EXPIRED",
        }
    }

    /// The state whose wire text is exactly `s`.
    pub fn parse(s: &str) -> (r: Option<Self>)
        ensures
            r == parse_request_state(s@),
    {
        if str_eq(s, "ACTIVE") {
            Some(RfqRequestState::Active)
        } else if str_eq(s, "SETTLING") {
            Some(RfqRequestState::Settling)
        } else if str_eq(s, "SETTLED") {
            Some(RfqRequestState::Settled)
        } else if str_eq(s, "CANCELED") {
            Some(RfqRequestState::Canceled)
        } else if str_eq(s, "EXPIRED") {
            Some(RfqRequestState::Expired)
        } else {
            None
        }
    }
}

/// Life-cycle state of an RFQ quote.
#[derive(Debug, Clone, Copy, PartialEq, Eq, Structural)]
pub enum RfqQuoteState {
    Active,
    Accepted,
    Canceled,
    Expired,
}

pub open spec fn quote_state_text(s: RfqQuoteState) -> Seq<char> {
    match s {
        RfqQuoteState::Active => "ACTIVE"@,
        RfqQuoteState::Accepted => "ACCEPTED"@,
        RfqQuoteState::Canceled => "CANCELED"@,
        RfqQuoteState::Expired => "EXPIRED"@,
    }
}

/// The quote state whose wire text is `s`, if any.
pub open spec fn parse_quote_state(s: Seq<char>) -> Option<RfqQuoteState> {
    if s == "ACTIVE"@ {
        Some(RfqQuoteState::Active)
    } else if s == "ACCEPTED"@ {
        Some(RfqQuoteState::Accepted)
    } else if s == "CANCELED"@ {
        Some(RfqQuoteState::Canceled)
    } else if s == "EXPIRED"@ {
        Some(RfqQuoteState::Expired)
    } else {
        None
    }
}

/// A quote state's wire text reads back as that state, and only that
/// state's text does.
pub proof fn lemma_quote_state_round_trip(st: RfqQuoteState, s: Seq<char>)
    ensures
        parse_quote_state(quote_state_text(st)) == Some(st),
        parse_quote_state(s) == Some(st) <==> quote_state_text(st) == s,
{
    reveal_strlit("ACTIVE");
    reveal_strlit("ACCEPTED");
    reveal_strlit("CANCELED");
    reveal_strlit("EXPIRED");
    assert("ACTIVE"@.len() == 6 && "ACCEPTED"@.len() == 8);
    assert("CANCELED"@.len() == 8 && "EXPIRED"@.len() == 7);
    assert("ACCEPTED"@[0] != "CANCELED"@[0]);
}

impl RfqQuoteState {
    /// The wire text, e.g. `ACTIVE`.
    pub fn as_str(self) -> (r: &'static str)
        ensures
            r@ == quote_state_text(self),
    {
        match self {
            RfqQuoteState::Active => "ACTIVE",
            RfqQuoteState::Accepted => "ACCEPTED",
            RfqQuoteState::Canceled => "CANCELED",
            RfqQuoteState::Expired => "EXPIRED",
        }
    }

    /// The state whose wire text is exactly `s`.
    pub fn parse(s: &str) -> (r: Option<Self>)
        ensures
            r == parse_quote_state(s@),
    {
        if str_eq(s, "ACTIVE") {
            Some(RfqQuoteState::Active)
        } else if str_eq(s, "ACCEPTED") {
            Some(RfqQuoteState::Accepted)
        } else if str_eq(s, "CANCELED") {
            Some(RfqQuoteState::Canceled)
        } else if str_eq(s, "EXPIRED") {
            Some(RfqQuoteState::Expired)
        } else {
            None
        }
    }
}

/// Prices of a quote: a bid, an ask, or both.
#[derive(Debug, Clone, Copy)]
pub enum RfqQuote {
    BidAndAsk { bid: Decimal, ask: Decimal },
    Bid { bid: Decimal },
    Ask { ask: Decimal },
}

impl RfqQuote {
    pub fn bid(self) -> (r: Option<Decimal>)
        ensures
            r == (match self {
                RfqQuote::BidAndAsk { bid, .. } => Some(bid),
                RfqQuote::Bid { bid } => Some(bid),
                RfqQuote::Ask { .. } => None,
            }),
    {
        match self {
            RfqQuote::BidAndAsk { bid, .. } => Some(bid),
            RfqQuote::Bid { bid } => Some(bid),
            RfqQuote::Ask { .. } => None,
        }
    }

    pub fn ask(self) -> (r: Option<Decimal>)
        ensures
            r == (match self {
                RfqQuote::BidAndAsk { ask, .. } => Some(ask),
                RfqQuote::Ask { ask } => Some(ask),
                RfqQuote::Bid { .. } => None,
            }),
    {
        match self {
            RfqQuote::BidAndAsk { ask, .. } => Some(ask),
            RfqQuote::Ask { ask } => Some(ask),
            RfqQuote::Bid { .. } => None,
        }
    }

    /// The sides the quote covers; it has a bid exactly when its sides
    /// include the bid, and likewise for the ask.
    pub fn sides(self) -> (r: RfqQuoteSides)
        ensures
            r == (match self {
                RfqQuote::BidAndAsk { .. } => RfqQuoteSides::BidAndAsk,
                RfqQuote::Bid { .. } => RfqQuoteSides::Bid,
                RfqQuote::Ask { .. } => RfqQuoteSides::Ask,
            }),
            (r == RfqQuoteSides::Bid || r == RfqQuoteSides::BidAndAsk) <==> !(self is Ask),
            (r == RfqQuoteSides::Ask || r == RfqQuoteSides::BidAndAsk) <==> !(self is Bid),
    {
        match self {
            RfqQuote::BidAndAsk { .. } => RfqQuoteSides::BidAndAsk,
            RfqQuote::Bid { .. } => RfqQuoteSides::Bid,
            RfqQuote::Ask { .. } => RfqQuoteSides::Ask,
        }
    }
}

} // verus!
