//! The attributes that a cookie carries to the browser: where it is sent,
//! how it may be read, and how long it lives.

use biscotti::SameSite;
use vstd::prelude::*;

verus! {

/// The `SameSite` policy of a cookie, as the cookie-processing crate
/// defines it: `Strict`, `Lax` or `None`, and nothing else.
#[verifier::external_type_specification]
pub struct ExSameSite(SameSite);

/// The earliest instant that an expiry can name, in seconds since the Unix
/// epoch.
pub const MIN_SECOND: i64 = -377705023201;

/// The latest instant that an expiry can name, in seconds since the Unix
/// epoch.
pub const MAX_SECOND: i64 = 253402207200;

/// An instant in time, held to the second: the resolution of the `Expires`
/// attribute.
#[derive(Clone, Copy, Debug, PartialEq, Eq)]
pub struct Moment {
    second: i64,
}

impl View for Moment {
    type V = int;

    /// The seconds since the Unix epoch.
    closed spec fn view(&self) -> int {
        self.second as int
    }
}

impl Moment {
    #[verifier::type_invariant]
    spec fn in_range(self) -> bool {
        MIN_SECOND <= self.second <= MAX_SECOND
    }

    /// The instant `second` seconds after the Unix epoch (before it, if
    /// negative), if that is an instant that an expiry can name.
    pub fn from_unix_seconds(second: i64) -> (r: Option<Moment>)
        ensures
            r is Some <==> MIN_SECOND <= second <= MAX_SECOND,
            r matches Some(m) ==> m@ == second,
    {
        if MIN_SECOND <= second && second <= MAX_SECOND {
            Some(Moment { second })
        } else {
            None
        }
    }

    /// The Unix epoch.
    pub fn unix_epoch() -> (r: Moment)
        ensures
            r@ == 0,
    {
        Moment { second: 0 }
    }

    /// The seconds since the Unix epoch.
    pub fn unix_seconds(&self) -> (r: i64)
        ensures
            r == self@,
            MIN_SECOND <= r <= MAX_SECOND,
    {
        proof {
            use_type_invariant(self);
        }
        self.second
    }
}

/// When a cookie expires: at an instant, or with the browser session.
#[derive(Clone, Copy, Debug, PartialEq, Eq)]
pub enum Expiration {
    DateTime(Moment),
    Session,
}

/// The mathematical model of an [`Expiration`].
pub enum ExpirationView {
    DateTime(int),
    Session,
}

impl View for Expiration {
    type V = ExpirationView;

    open spec fn view(&self) -> ExpirationView {
        match self {
            Expiration::DateTime(m) => ExpirationView::DateTime(m@),
            Expiration::Session => ExpirationView::Session,
        }
    }
}

/// The view of an optional string.
pub open spec fn text(s: Option<String>) -> Option<Seq<char>> {
    match s {
        Some(s) => Some(s@),
        None => None,
    }
}

/// The view of an optional expiry.
pub open spec fn expiry(e: Option<Expiration>) -> Option<ExpirationView> {
    match e {
        Some(e) => Some(e@),
        None => None,
    }
}

/// The attributes of a cookie, each one set or left to the browser's
/// default.
#[derive(Clone, Debug)]
pub struct Attributes {
    path: Option<String>,
    domain: Option<String>,
    secure: Option<bool>,
    http_only: Option<bool>,
    partitioned: Option<bool>,
    same_site: Option<SameSite>,
    max_age: Option<i64>,
    expires: Option<Expiration>,
    permanent: bool,
}

/// The mathematical model of [`Attributes`]. `max_age` is in seconds.
pub struct AttributesView {
    pub path: Option<Seq<char>>,
    pub domain: Option<Seq<char>>,
    pub secure: Option<bool>,
    pub http_only: Option<bool>,
    pub partitioned: Option<bool>,
    pub same_site: Option<SameSite>,
    pub max_age: Option<i64>,
    pub expires: Option<ExpirationView>,
    pub permanent: bool,
}

impl AttributesView {
    /// No attribute set.
    pub open spec fn unset() -> AttributesView {
        AttributesView {
            path: None,
            domain: None,
            secure: None,
            http_only: None,
            partitioned: None,
            same_site: None,
            max_age: None,
            expires: None,
            permanent: false,
        }
    }

    /// The safe defaults: the path `/` and `HttpOnly`, nothing else.
    pub open spec fn safe() -> AttributesView {
        AttributesView { path: Some(seq!['/']), http_only: Some(true), ..Self::unset() }
    }
}

impl View for Attributes {
    type V = AttributesView;

    closed spec fn view(&self) -> AttributesView {
        AttributesView {
            path: text(self.path),
            domain: text(self.domain),
            secure: self.secure,
            http_only: self.http_only,
            partitioned: self.partitioned,
            same_site: self.same_site,
            max_age: self.max_age,
            expires: expiry(self.expires),
            permanent: self.permanent,
        }
    }
}

impl Attributes {
    /// Attributes with nothing set.
    pub fn new() -> (r: Attributes)
        ensures
            r@ == AttributesView::unset(),
    {
        Attributes {
            path: None,
            domain: None,
            secure: None,
            http_only: None,
            partitioned: None,
            same_site: None,
            max_age: None,
            expires: None,
            permanent: false,
        }
    }

    /// Sets the path.
    pub fn path(self, path: &str) -> (r: Attributes)
        ensures
            r@ == (AttributesView { path: Some(path@), ..self@ }),
    {
        let mut out = self;
        out.path = Some(path.to_owned());
        out
    }

    /// Sets the domain. It is kept as given; a cookie made with it reports
    /// its domain without one leading dot.
    pub fn domain(self, domain: &str) -> (r: Attributes)
        ensures
            r@ == (AttributesView { domain: Some(domain@), ..self@ }),
    {
        let mut out = self;
        out.domain = Some(domain.to_owned());
        out
    }

    /// Sets or clears the `Secure` flag.
    pub fn secure(self, value: Option<bool>) -> (r: Attributes)
        ensures
            r@ == (AttributesView { secure: value, ..self@ }),
    {
        let mut out = self;
        out.secure = value;
        out
    }

    /// Sets or clears the `HttpOnly` flag.
    pub fn http_only(self, value: Option<bool>) -> (r: Attributes)
        ensures
            r@ == (AttributesView { http_only: value, ..self@ }),
    {
        let mut out = self;
        out.http_only = value;
        out
    }

    /// Sets or clears the `SameSite` policy.
    pub fn same_site(self, value: Option<SameSite>) -> (r: Attributes)
        ensures
            r@ == (AttributesView { same_site: value, ..self@ }),
    {
        let mut out = self;
        out.same_site = value;
        out
    }

    /// Sets or clears the maximum age, in seconds.
    pub fn max_age(self, value: Option<i64>) -> (r: Attributes)
        ensures
            r@ == (AttributesView { max_age: value, ..self@ }),
    {
        let mut out = self;
        out.max_age = value;
        out
    }

    /// Sets or clears the expiry.
    pub fn expires(self, value: Option<Expiration>) -> (r: Attributes)
        ensures
            r@ == (AttributesView { expires: expiry(value), ..self@ }),
    {
        let mut out = self;
        out.expires = value;
        out
    }

    /// Sets or clears the `Partitioned` flag.
    pub fn partitioned(self, value: Option<bool>) -> (r: Attributes)
        ensures
            r@ == (AttributesView { partitioned: value, ..self@ }),
    {
        let mut out = self;
        out.partitioned = value;
        out
    }

    /// Makes the cookie permanent, or not. A permanent cookie lives twenty
    /// years from the moment it is written, whatever maximum age and expiry
    /// are set beside.
    pub fn permanent(self, value: bool) -> (r: Attributes)
        ensures
            r@ == (AttributesView { permanent: value, ..self@ }),
    {
        let mut out = self;
        out.permanent = value;
        out
    }

    /// Whether the cookie is to be permanent.
    pub(crate) fn is_permanent(&self) -> (r: bool)
        ensures
            r == self@.permanent,
    {
        self.permanent
    }

    /// The path, if one is set.
    pub(crate) fn path_ref(&self) -> (r: &Option<String>)
        ensures
            text(*r) == self@.path,
    {
        &self.path
    }

    /// The domain, if one is set.
    pub(crate) fn domain_ref(&self) -> (r: &Option<String>)
        ensures
            text(*r) == self@.domain,
    {
        &self.domain
    }

    /// All that is neither path nor domain.
    pub(crate) fn rest(&self) -> (r: (
        Option<bool>,
        Option<bool>,
        Option<bool>,
        Option<SameSite>,
        Option<i64>,
        Option<Expiration>,
        bool,
    ))
        ensures
            r.0 == self@.secure,
            r.1 == self@.http_only,
            r.2 == self@.partitioned,
            r.3 == self@.same_site,
            r.4 == self@.max_age,
            expiry(r.5) == self@.expires,
            r.6 == self@.permanent,
    {
        (
            self.secure,
            self.http_only,
            self.partitioned,
            self.same_site,
            self.max_age,
            self.expires,
            self.permanent,
        )
    }
}

impl Default for Attributes {
    /// The safe defaults: the path `/` and `HttpOnly`, nothing else.
    fn default() -> (r: Attributes)
        ensures
            r@ == AttributesView::safe(),
    {
        proof {
            reveal_strlit("/");
        }
        let r = Attributes::new().path("/").http_only(Some(true));
        assert(r@.path == Some(seq!['/'])) by {
            assert("/"@ =~= seq!['/']);
        }
        r
    }
}

} // verus!
