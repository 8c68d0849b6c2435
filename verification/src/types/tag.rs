//! Order tag: a validated newtype.
use vstd::prelude::*;
use vstd::string::*;

use crate::text::str_eq;

verus! {

/// Name for what the `regex` crate answers when `pattern` is compiled with
/// `Regex::new` and matched against `text` with `Regex::is_match`: `None`
/// where the pattern does not compile.
pub uninterp spec fn regex_match(pattern: Seq<char>, text: Seq<char>) -> Option<bool>;

/// A character of the class `[a-zA-Z0-9_]`.
pub open spec fn is_word_char(c: char) -> bool {
    ('a' <= c && c <= 'z') || ('A' <= c && c <= 'Z') || ('0' <= c && c <= '9') || c == '_'
}

/// A text of one or more characters of `[a-zA-Z0-9_]`.
pub open spec fn is_word_text(s: Seq<char>) -> bool {
    s.len() > 0 && forall|i: int| 0 <= i < s.len() ==> is_word_char(#[trigger] s[i])
}

/// Calls `regex::Regex::new(pattern)` and, where it compiles, `is_match(text)`.
/// The answer is named for every pattern; for the tag pattern
/// `^[a-zA-Z0-9_]+$` the contract also states it, as the crate's syntax
/// documentation defines it (`^` and `$` the beginning and end of the
/// haystack, `[a-z]` a range of characters, `x+` one or more of `x`): the
/// pattern compiles, and matches exactly the texts of one or more characters
/// of the class.
#[verifier::external_body]
fn regex_is_match(pattern: &str, text: &str) -> (r: Option<bool>)
    ensures
        r == regex_match(pattern@, text@),
        pattern@ == tag_pattern() ==> r == Some(is_word_text(text@)),
{
    match regex::Regex::new(pattern) {
        Ok(re) => Some(re.is_match(text)),
        Err(_) => None,
    }
}

/// The pattern a tag must match: ASCII letters, digits and underscores only.
pub open spec fn tag_pattern() -> Seq<char> {
    "^[a-zA-Z0-9_]+$"@
}

/// Longest tag, in bytes of its UTF-8 encoding.
pub const MAX_TAG_LEN: usize = 50;

/// Checking a tag, given what matching it against `tag_pattern` answered:
/// it must not be empty, must be at most 50 bytes long, and must match.
pub open spec fn tag_check(tag: Seq<char>, matched: Option<bool>) -> Result<Seq<char>, Seq<char>> {
    if tag.len() == 0 {
        Err("Tag cannot be empty"@)
    } else if vstd::utf8::encode_utf8(tag).len() > MAX_TAG_LEN {
        Err("Tag cannot be longer than 50 characters"@)
    } else if matched != Some(true) {
        Err("Tag contains invalid characters"@)
    } else {
        Ok(tag)
    }
}

/// Strong type for Tag with validation.
#[derive(Default, Debug, Clone, PartialEq, Eq, Hash)]
pub struct Tag(String);

impl View for Tag {
    type V = Seq<char>;

    closed spec fn view(&self) -> Seq<char> {
        self.0@
    }
}

pub open spec fn tag_result_view(r: Result<Tag, String>) -> Result<Seq<char>, Seq<char>> {
    match r {
        Ok(t) => Ok(t@),
        Err(e) => Err(e@),
    }
}

impl Tag {
    /// Creates a new Tag with validation.
    pub fn new(tag: &str) -> (r: Result<Self, String>)
        ensures
            tag_result_view(r) == tag_check(tag@, Some(is_word_text(tag@))),
    {
        if tag.is_empty() {
            return Err(String::from_str("Tag cannot be empty"));
        }
        if tag.as_bytes().len() > MAX_TAG_LEN {
            return Err(String::from_str("Tag cannot be longer than 50 characters"));
        }
        let matched = regex_is_match("^[a-zA-Z0-9_]+$", tag);
        Self::from_pattern_match(tag, matched)
    }

    /// Finishes the check of `new` once matching `tag` against the tag
    /// pattern has answered `matched`.
    pub fn from_pattern_match(tag: &str, matched: Option<bool>) -> (r: Result<Self, String>)
        ensures
            tag_result_view(r) == tag_check(tag@, matched),
    {
        if tag.is_empty() {
            return Err(String::from_str("Tag cannot be empty"));
        }
        if tag.as_bytes().len() > MAX_TAG_LEN {
            return Err(String::from_str("Tag cannot be longer than 50 characters"));
        }
        match matched {
            Some(true) => Ok(Tag(tag.to_owned())),
            _ => Err(String::from_str("Tag contains invalid characters")),
        }
    }

    /// Creates a tag without validation (for internal use).
    pub fn new_unchecked(tag: &str) -> (r: Self)
        ensures
            r@ == tag@,
    {
        Tag(tag.to_owned())
    }

    /// The inner string value.
    pub fn as_str(&self) -> (r: &str)
        ensures
            r@ == self@,
    {
        self.0.as_str()
    }

    /// The value as display text.
    pub fn to_string(&self) -> (r: String)
        ensures
            r@ == self@,
    {
        self.0.clone()
    }

    /// Converts into the inner string value.
    pub fn into_inner(self) -> (r: String)
        ensures
            r@ == self@,
    {
        self.0
    }

    /// Whether the tag is the text `other`.
    pub fn eq_str(&self, other: &str) -> (r: bool)
        ensures
            r == (self@ == other@),
    {
        str_eq(self.0.as_str(), other)
    }
}

impl AsRef<str> for Tag {
    fn as_ref(&self) -> (r: &str)
        ensures
            r@ == self@,
    {
        self.0.as_str()
    }
}

impl std::str::FromStr for Tag {
    type Err = core::convert::Infallible;

    /// Wraps the text as it is.
    fn from_str(s: &str) -> (r: Result<Self, Self::Err>)
        ensures
            r matches Ok(v) && v@ == s@,
    {
        Ok(Tag(s.to_owned()))
    }
}

} // verus!

verus! {

/// A tag is accepted exactly when it is not empty, is at most 50 bytes long,
/// and every character is an ASCII letter (of either case), a digit or `_`;
/// it is then kept as given. Otherwise the first failing check names the
/// error: empty, then too long, then invalid characters.
pub proof fn lemma_tag_accepts_exactly_word_texts(t: Seq<char>)
    ensures
        (t.len() > 0 && vstd::utf8::encode_utf8(t).len() <= 50 && (forall|i: int|
            0 <= i < t.len() ==> ('a' <= #[trigger] t[i] <= 'z') || ('A' <= t[i] <= 'Z') || (
            '0' <= t[i] <= '9') || t[i] == '_')) ==> tag_check(t, Some(is_word_text(t)))
            == Ok::<Seq<char>, Seq<char>>(t),
        t.len() == 0 ==> tag_check(t, Some(is_word_text(t))) == Err::<Seq<char>, Seq<char>>(
            "Tag cannot be empty"@,
        ),
        t.len() > 0 && vstd::utf8::encode_utf8(t).len() > 50 ==> tag_check(
            t,
            Some(is_word_text(t)),
        ) == Err::<Seq<char>, Seq<char>>("Tag cannot be longer than 50 characters"@),
        (t.len() > 0 && vstd::utf8::encode_utf8(t).len() <= 50 && (exists|i: int|
            0 <= i < t.len() && !(('a' <= #[trigger] t[i] <= 'z') || ('A' <= t[i] <= 'Z') || (
            '0' <= t[i] <= '9') || t[i] == '_'))) ==> tag_check(t, Some(is_word_text(t)))
            == Err::<Seq<char>, Seq<char>>("Tag contains invalid characters"@),
{
    if exists|i: int|
        0 <= i < t.len() && !(('a' <= #[trigger] t[i] <= 'z') || ('A' <= t[i] <= 'Z') || (
        '0' <= t[i] <= '9') || t[i] == '_')
    {
        let i = choose|i: int|
            0 <= i < t.len() && !(('a' <= #[trigger] t[i] <= 'z') || ('A' <= t[i] <= 'Z') || (
            '0' <= t[i] <= '9') || t[i] == '_');
        assert(!is_word_char(t[i]));
    }
}

/// Once the pattern has answered, a non-empty tag of at most 50 bytes is
/// accepted as given exactly when the answer is a match.
pub proof fn lemma_tag_check_follows_match(t: Seq<char>, matched: Option<bool>)
    requires
        t.len() > 0,
        vstd::utf8::encode_utf8(t).len() <= 50,
    ensures
        matched == Some(true) ==> tag_check(t, matched) == Ok::<Seq<char>, Seq<char>>(t),
        matched != Some(true) ==> tag_check(t, matched) == Err::<Seq<char>, Seq<char>>(
            "Tag contains invalid characters"@,
        ),
{
}

} // verus!
