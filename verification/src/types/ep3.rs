//! EP3 types: strong wrappers for EP3 accounts, usernames and firms.
use vstd::prelude::*;
use vstd::string::*;

use crate::text;
use crate::text::{concat, split, str_eq, strip_prefix};

verus! {

/// Strong type for EP3 Account to prevent mixing with other string values.
#[derive(Default, Debug, Clone, PartialEq, Eq, Hash)]
pub struct Ep3Account(String);

impl View for Ep3Account {
    type V = Seq<char>;

    closed spec fn view(&self) -> Seq<char> {
        self.0@
    }
}

impl Ep3Account {
    /// Creates a new Ep3Account from a string.
    pub fn new(account: &str) -> (r: Self)
        ensures
            r@ == account@,
    {
        Ep3Account(account.to_owned())
    }

    /// The inner string value.
    pub fn as_str(&self) -> (r: &str)
        ensures
            r@ == self@,
    {
        self.0.as_str()
    }

    /// Converts into the inner string value.
    pub fn into_inner(self) -> (r: String)
        ensures
            r@ == self@,
    {
        self.0
    }

    /// The account as display text.
    pub fn to_string(&self) -> (r: String)
        ensures
            r@ == self@,
    {
        self.0.clone()
    }
}

impl AsRef<str> for Ep3Account {
    fn as_ref(&self) -> (r: &str)
        ensures
            r@ == self@,
    {
        self.0.as_str()
    }
}

impl std::str::FromStr for Ep3Account {
    type Err = core::convert::Infallible;

    /// Wraps the text as it is.
    fn from_str(s: &str) -> (r: Result<Self, Self::Err>)
        ensures
            r matches Ok(a) && a@ == s@,
    {
        Ok(Ep3Account(s.to_owned()))
    }
}

/// EP3 Username that can handle both structured and simple formats.
/// This is the main EP3 username type used throughout the system.
#[derive(Debug, Clone, PartialEq, Eq, Hash)]
pub enum Ep3Username {
    /// Username with firm and user components (e.g., firms/CHI/users/ADX.USER.971)
    WithFirm { firm_id: String, user_id: String },
    /// Simple username without firm (e.g., "admin")
    NoFirm(String),
}

/// A username seen as its optional firm and its user part.
impl View for Ep3Username {
    type V = (Option<Seq<char>>, Seq<char>);

    open spec fn view(&self) -> (Option<Seq<char>>, Seq<char>) {
        match self {
            Ep3Username::WithFirm { firm_id, user_id } => (Some(firm_id@), user_id@),
            Ep3Username::NoFirm(name) => (None, name@),
        }
    }
}

/// The full EP3 path of a username: `firms/<firm>/users/<user>`, or the bare
/// name where there is no firm.
pub open spec fn username_path(u: (Option<Seq<char>>, Seq<char>)) -> Seq<char> {
    match u.0 {
        Some(f) => "firms/"@ + f + "/users/"@ + u.1,
        None => u.1,
    }
}

/// Reading a username: a path of exactly four `/`-separated parts
/// `firms/<firm>/users/<user>`, or a name without any `/`.
pub open spec fn parse_username_spec(path: Seq<char>) -> Result<
    (Option<Seq<char>>, Seq<char>),
    Seq<char>,
> {
    let parts = text::split_on(path, '/');
    if parts.len() == 4 && parts[0] == "firms"@ && parts[2] == "users"@ {
        Ok((Some(parts[1]), parts[3]))
    } else if parts.len() == 1 {
        Ok((None, path))
    } else {
        Err("Invalid EP3 username format: "@ + path)
    }
}

pub open spec fn username_result_view(r: Result<Ep3Username, String>) -> Result<
    (Option<Seq<char>>, Seq<char>),
    Seq<char>,
> {
    match r {
        Ok(u) => Ok(u@),
        Err(e) => Err(e@),
    }
}

/// Firm used for a username that names none, where no other is configured.
pub open spec fn fallback_firm_id() -> Seq<char> {
    "CHI"@
}

/// The firm of a username: its own, or else the configured default, or else
/// the fallback firm.
pub open spec fn firm_of(u: (Option<Seq<char>>, Seq<char>), configured: Option<Seq<char>>) -> Seq<
    char,
> {
    match u.0 {
        Some(f) => f,
        None => match configured {
            Some(c) => c,
            None => fallback_firm_id(),
        },
    }
}

pub open spec fn opt_str_view(o: Option<&str>) -> Option<Seq<char>> {
    match o {
        Some(s) => Some(s@),
        None => None,
    }
}

impl Ep3Username {
    /// Creates a username with firm from components.
    pub fn with_firm(firm_id: &str, user_id: &str) -> (r: Self)
        ensures
            r@ == (Some(firm_id@), user_id@),
    {
        Ep3Username::WithFirm { firm_id: firm_id.to_owned(), user_id: user_id.to_owned() }
    }

    /// Creates a username with firm from components (alias for `with_firm`).
    pub fn new(firm_id: &str, user_id: &str) -> (r: Self)
        ensures
            r@ == (Some(firm_id@), user_id@),
    {
        Self::with_firm(firm_id, user_id)
    }

    /// Creates a simple username without firm.
    pub fn simple(username: &str) -> (r: Self)
        ensures
            r@ == (None::<Seq<char>>, username@),
    {
        Ep3Username::NoFirm(username.to_owned())
    }

    /// Creates a username from a full EP3 username path or a simple username.
    pub fn from_full_path(full_path: &str) -> (r: Result<Self, String>)
        ensures
            username_result_view(r) == parse_username_spec(full_path@),
    {
        let parts = split(full_path, '/');
        let ghost pv = parts@.map_values(|p: String| p@);
        let n = parts.len();
        proof {
            assert(pv.len() == n);
        }
        if n == 4 && str_eq(parts[0].as_str(), "firms") && str_eq(parts[2].as_str(), "users") {
            proof {
                assert(pv[0] == parts@[0]@);
                assert(pv[1] == parts@[1]@);
                assert(pv[2] == parts@[2]@);
                assert(pv[3] == parts@[3]@);
            }
            Ok(Ep3Username::WithFirm { firm_id: parts[1].clone(), user_id: parts[3].clone() })
        } else {
            proof {
                if n == 4 {
                    assert(pv[0] == parts@[0]@);
                    assert(pv[2] == parts@[2]@);
                }
            }
            if n == 1 {
                Ok(Ep3Username::NoFirm(full_path.to_owned()))
            } else {
                Err(concat("Invalid EP3 username format: ", full_path))
            }
        }
    }

    /// The firm ID (if WithFirm), or `None` for NoFirm.
    pub fn firm_id(&self) -> (r: Option<&str>)
        ensures
            opt_str_view(r) == self@.0,
    {
        match self {
            Ep3Username::WithFirm { firm_id, .. } => Some(firm_id.as_str()),
            Ep3Username::NoFirm(_) => None,
        }
    }

    /// The user ID (if WithFirm) or the simple username (if NoFirm).
    pub fn user_id(&self) -> (r: &str)
        ensures
            r@ == self@.1,
    {
        match self {
            Ep3Username::WithFirm { user_id, .. } => user_id.as_str(),
            Ep3Username::NoFirm(username) => username.as_str(),
        }
    }

    /// The full EP3 username path or simple username.
    pub fn full_path(&self) -> (r: String)
        ensures
            r@ == username_path(self@),
    {
        match self {
            Ep3Username::WithFirm { firm_id, user_id } => {
                let a = concat("firms/", firm_id.as_str());
                let b = concat(a.as_str(), "/users/");
                concat(b.as_str(), user_id.as_str())
            },
            Ep3Username::NoFirm(username) => username.clone(),
        }
    }

    /// Extracts the firm as an `Ep3Firm`. A username without firm takes
    /// `configured_firm` (the deployment's configured participant firm, where
    /// one is set) or else the fallback firm `CHI`.
    pub fn extract_firm(&self, configured_firm: Option<&str>) -> (r: Ep3Firm)
        ensures
            r@ == firm_of(self@, opt_str_view(configured_firm)),
    {
        match self {
            Ep3Username::WithFirm { firm_id, .. } => Ep3Firm::new(firm_id.as_str()),
            Ep3Username::NoFirm(_) => match configured_firm {
                Some(f) => Ep3Firm::new(f),
                None => Ep3Firm::new("CHI"),
            },
        }
    }

    /// Converts to an owned String (the full path).
    pub fn into_string(self) -> (r: String)
        ensures
            r@ == username_path(self@),
    {
        self.full_path()
    }

    /// The username as display text (the full path).
    pub fn to_string(&self) -> (r: String)
        ensures
            r@ == username_path(self@),
    {
        self.full_path()
    }

    /// Whether this username has firm information.
    pub fn has_firm(&self) -> (r: bool)
        ensures
            r == self@.0 is Some,
    {
        matches!(self, Ep3Username::WithFirm { .. })
    }

    /// Whether this is a simple username without firm.
    pub fn is_simple(&self) -> (r: bool)
        ensures
            r == self@.0 is None,
    {
        matches!(self, Ep3Username::NoFirm(_))
    }
}

impl Default for Ep3Username {
    fn default() -> (r: Self)
        ensures
            r@ == (None::<Seq<char>>, Seq::<char>::empty()),
    {
        Ep3Username::NoFirm(String::new())
    }
}

/// Structured EP3 Firm to avoid string parsing.
#[derive(Debug, Clone, PartialEq, Eq, Hash)]
pub struct Ep3Firm {
    pub firm_id: String,
}

impl View for Ep3Firm {
    type V = Seq<char>;

    open spec fn view(&self) -> Seq<char> {
        self.firm_id@
    }
}

impl AsRef<str> for Ep3Firm {
    fn as_ref(&self) -> (r: &str)
        ensures
            r@ == self@,
    {
        self.firm_id.as_str()
    }
}

impl std::str::FromStr for Ep3Firm {
    type Err = core::convert::Infallible;

    /// Takes the text as the firm ID.
    fn from_str(s: &str) -> (r: Result<Self, Self::Err>)
        ensures
            r matches Ok(f) && f@ == s@,
    {
        Ok(Ep3Firm { firm_id: s.to_owned() })
    }
}

/// The full path of a firm: `firms/<firm>`.
pub open spec fn firm_path(firm_id: Seq<char>) -> Seq<char> {
    "firms/"@ + firm_id
}

/// Reading a firm path: the text after a leading `firms/`.
pub open spec fn parse_firm_spec(path: Seq<char>) -> Result<Seq<char>, Seq<char>> {
    match text::strip_prefix_spec(path, "firms/"@) {
        Some(id) => Ok(id),
        None => Err("Invalid firm path format: "@ + path),
    }
}

pub open spec fn firm_result_view(r: Result<Ep3Firm, String>) -> Result<Seq<char>, Seq<char>> {
    match r {
        Ok(f) => Ok(f@),
        Err(e) => Err(e@),
    }
}

impl Ep3Firm {
    /// Creates a firm from its ID (e.g., "CHI").
    pub fn new(firm_id: &str) -> (r: Self)
        ensures
            r@ == firm_id@,
    {
        Ep3Firm { firm_id: firm_id.to_owned() }
    }

    /// Creates a firm from its full path (e.g., "firms/CHI").
    pub fn from_full_path(full_path: &str) -> (r: Result<Self, String>)
        ensures
            firm_result_view(r) == parse_firm_spec(full_path@),
    {
        match strip_prefix(full_path, "firms/") {
            Some(firm_id) => Ok(Self::new(firm_id)),
            None => Err(concat("Invalid firm path format: ", full_path)),
        }
    }

    /// Creates a firm from text that is either a bare firm ID (no `/`) or a
    /// full firm path.
    pub fn from_id_or_path(s: &str) -> (r: Self)
        requires
            s@.contains('/') ==> parse_firm_spec(s@) is Ok,
        ensures
            r@ == (if s@.contains('/') {
                parse_firm_spec(s@)->Ok_0
            } else {
                s@
            }),
    {
        match text::find(s, '/') {
            Some(_) => match Self::from_full_path(s) {
                Ok(f) => f,
                Err(_) => {
                    proof {
                        assert(false);
                    }
                    Self::new(s)
                },
            },
            None => {
                proof {
                    text::lemma_find_char(s@, '/');
                }
                Self::new(s)
            },
        }
    }

    /// Creates a firm from an EP3 username (its own firm, or the configured
    /// default, or `CHI`, for a simple username).
    pub fn from_ep3_username(ep3_username: &Ep3Username, configured_firm: Option<&str>) -> (r:
        Self)
        ensures
            r@ == firm_of(ep3_username@, opt_str_view(configured_firm)),
    {
        ep3_username.extract_firm(configured_firm)
    }

    /// The firm ID (e.g., "CHI").
    pub fn firm_id(&self) -> (r: &str)
        ensures
            r@ == self@,
    {
        self.firm_id.as_str()
    }

    /// The full firm path (e.g., "firms/CHI").
    pub fn full_path(&self) -> (r: String)
        ensures
            r@ == firm_path(self@),
    {
        concat("firms/", self.firm_id.as_str())
    }

    /// The inner string value.
    pub fn as_str(&self) -> (r: &str)
        ensures
            r@ == self@,
    {
        self.firm_id.as_str()
    }

    /// Converts to an owned String.
    pub fn into_string(self) -> (r: String)
        ensures
            r@ == self@,
    {
        self.firm_id
    }

    /// The firm as display text (its ID).
    pub fn to_string(&self) -> (r: String)
        ensures
            r@ == self@,
    {
        self.firm_id.clone()
    }

    /// Whether the firm ID is `other`.
    pub fn eq_str(&self, other: &str) -> (r: bool)
        ensures
            r == (self@ == other@),
    {
        str_eq(self.firm_id.as_str(), other)
    }
}

/// A username whose parts hold no `/` reads back from its full path.
pub proof fn lemma_username_round_trip(u: (Option<Seq<char>>, Seq<char>))
    requires
        !u.1.contains('/'),
        u.0 matches Some(f) ==> !f.contains('/'),
    ensures
        parse_username_spec(username_path(u)) == Ok::<_, Seq<char>>(u),
{
    reveal_strlit("firms/");
    reveal_strlit("/users/");
    reveal_strlit("firms");
    reveal_strlit("users");
    let user = u.1;
    match u.0 {
        Some(f) => {
            let p = username_path(u);
            let firms = "firms"@;
            let users = "users"@;
            assert(!firms.contains('/')) by {
                if firms.contains('/') {
                    let k = choose|k: int| 0 <= k < firms.len() && firms[k] == '/';
                }
            }
            assert(!users.contains('/')) by {
                if users.contains('/') {
                    let k = choose|k: int| 0 <= k < users.len() && users[k] == '/';
                }
            }
            let tail2 = users + seq!['/'] + user;
            let tail1 = f + seq!['/'] + tail2;
            assert(p =~= firms + seq!['/'] + tail1);
            text::lemma_split_on_single(user, '/');
            text::lemma_split_on_cons(users, '/', user);
            text::lemma_split_on_cons(f, '/', tail2);
            text::lemma_split_on_cons(firms, '/', tail1);
            let parts = text::split_on(p, '/');
            assert(parts =~= seq![firms, f, users, user]);
        },
        None => {
            text::lemma_split_on_single(user, '/');
        },
    }
}

/// Every firm reads back from its full path.
pub proof fn lemma_firm_round_trip(firm_id: Seq<char>)
    ensures
        parse_firm_spec(firm_path(firm_id)) == Ok::<_, Seq<char>>(firm_id),
{
    let p = firm_path(firm_id);
    let pre = "firms/"@;
    assert(pre.is_prefix_of(p)) by {
        assert(p.subrange(0, pre.len() as int) =~= pre);
    }
    assert(p.subrange(pre.len() as int, p.len() as int) =~= firm_id);
}

} // verus!

verus! {

/// The firm of a username that names one is that firm, whatever firm is
/// configured; only a username without a firm takes the configured firm, and
/// `CHI` where none is configured.
pub proof fn lemma_firm_of_username(u: (Option<Seq<char>>, Seq<char>), configured: Option<Seq<char>>)
    ensures
        u.0 matches Some(f) ==> firm_of(u, configured) == f,
        u.0 is None && configured is Some ==> firm_of(u, configured) == configured->0,
        u.0 is None && configured is None ==> firm_of(u, configured) == "CHI"@,
{
}

} // verus!
