//! Trading symbol: a newtype for type safety.
use vstd::prelude::*;
use vstd::string::*;

use crate::text::str_eq;

verus! {

/// Strong type for Symbol to prevent mixing with other string values.
#[derive(Default, Debug, Clone, PartialEq, Eq, Hash)]
pub struct Symbol(String);

impl View for Symbol {
    type V = Seq<char>;

    closed spec fn view(&self) -> Seq<char> {
        self.0@
    }
}

impl Symbol {
    /// Creates a new Symbol from a string.
    pub fn new(symbol: &str) -> (r: Self)
        ensures
            r@ == symbol@,
    {
        Symbol(symbol.to_owned())
    }

    /// The inner string value.
    pub fn as_str(&self) -> (r: &str)
        ensures
            r@ == self@,
    {
        self.0.as_str()
    }

    /// The value as display text.
    pub fn to_string(&self) -> (r: String)
        ensures
            r@ == self@,
    {
        self.0.clone()
    }

    /// Converts into the inner string value.
    pub fn into_inner(self) -> (r: String)
        ensures
            r@ == self@,
    {
        self.0
    }

    /// Whether the symbol is the text `other`.
    pub fn eq_str(&self, other: &str) -> (r: bool)
        ensures
            r == (self@ == other@),
    {
        str_eq(self.0.as_str(), other)
    }
}

impl AsRef<str> for Symbol {
    fn as_ref(&self) -> (r: &str)
        ensures
            r@ == self@,
    {
        self.0.as_str()
    }
}

impl std::str::FromStr for Symbol {
    type Err = core::convert::Infallible;

    /// Wraps the text as it is.
    fn from_str(s: &str) -> (r: Result<Self, Self::Err>)
        ensures
            r matches Ok(v) && v@ == s@,
    {
        Ok(Symbol(s.to_owned()))
    }
}

} // verus!
