//! Order ID: a newtype for type safety.
use vstd::prelude::*;
use vstd::string::*;

use crate::text::str_eq;

verus! {

/// Strong type for Order IDs to prevent mixing with other string values.
#[derive(Default, Debug, Clone, PartialEq, Eq, Hash)]
pub struct OrderId(String);

impl View for OrderId {
    type V = Seq<char>;

    closed spec fn view(&self) -> Seq<char> {
        self.0@
    }
}

impl OrderId {
    /// Creates a new OrderId from a string.
    pub fn new(id: &str) -> (r: Self)
        ensures
            r@ == id@,
    {
        OrderId(id.to_owned())
    }

    /// The inner string value.
    pub fn as_str(&self) -> (r: &str)
        ensures
            r@ == self@,
    {
        self.0.as_str()
    }

    /// The value as display text.
    pub fn to_string(&self) -> (r: String)
        ensures
            r@ == self@,
    {
        self.0.clone()
    }

    /// Converts into the inner string value.
    pub fn into_inner(self) -> (r: String)
        ensures
            r@ == self@,
    {
        self.0
    }

    /// Whether the ID is the text `other`.
    pub fn eq_str(&self, other: &str) -> (r: bool)
        ensures
            r == (self@ == other@),
    {
        str_eq(self.0.as_str(), other)
    }
}

impl AsRef<str> for OrderId {
    fn as_ref(&self) -> (r: &str)
        ensures
            r@ == self@,
    {
        self.0.as_str()
    }
}

impl std::str::FromStr for OrderId {
    type Err = core::convert::Infallible;

    /// Wraps the text as it is.
    fn from_str(s: &str) -> (r: Result<Self, Self::Err>)
        ensures
            r matches Ok(v) && v@ == s@,
    {
        Ok(OrderId(s.to_owned()))
    }
}

} // verus!
