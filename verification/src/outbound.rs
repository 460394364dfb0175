//! A cookie on its way to the browser, and the triple that identifies it.

use crate::attributes::{
    expiry, text, Attributes, AttributesView, Expiration, ExpirationView, Moment, MAX_SECOND,
    MIN_SECOND,
};
use biscotti::SameSite;
use vstd::prelude::*;

verus! {

/// The lifetime of a permanent cookie in seconds: twenty years of 365 days.
pub const TWENTY_YEARS: i64 = 630_720_000;

/// What identifies an outgoing cookie: its name, its path and its domain.
/// A cookie written later under the same three replaces the earlier one.
#[derive(Clone, Debug, PartialEq, Eq)]
pub struct CookieId {
    pub name: String,
    pub path: Option<String>,
    pub domain: Option<String>,
}

/// The mathematical model of a [`CookieId`].
pub struct CookieIdView {
    pub name: Seq<char>,
    pub path: Option<Seq<char>>,
    pub domain: Option<Seq<char>>,
}

impl View for CookieId {
    type V = CookieIdView;

    open spec fn view(&self) -> CookieIdView {
        CookieIdView { name: self.name@, path: text(self.path), domain: text(self.domain) }
    }
}

impl CookieId {
    /// The identity of the cookie `name` with no path and no domain.
    pub fn new(name: &str) -> (r: CookieId)
        ensures
            r@ == (CookieIdView { name: name@, path: None, domain: None }),
    {
        CookieId { name: name.to_owned(), path: None, domain: None }
    }

    /// Sets the path.
    pub fn set_path(self, path: &str) -> (r: CookieId)
        ensures
            r@ == (CookieIdView { path: Some(path@), ..self@ }),
    {
        let mut out = self;
        out.path = Some(path.to_owned());
        out
    }

    /// Sets the domain.
    pub fn set_domain(self, domain: &str) -> (r: CookieId)
        ensures
            r@ == (CookieIdView { domain: Some(domain@), ..self@ }),
    {
        let mut out = self;
        out.domain = Some(domain.to_owned());
        out
    }

    /// The identity under which a cookie `name` written with `attributes`
    /// is kept: the path and the domain are those of the attributes.
    pub fn with_attributes(name: &str, attributes: &Attributes) -> (r: CookieId)
        ensures
            r@ == key(name@, attributes@),
    {
        CookieId {
            name: name.to_owned(),
            path: attributes.path_ref().clone(),
            domain: attributes.domain_ref().clone(),
        }
    }
}

/// The identity of a cookie `name` written with the attributes `a`.
pub open spec fn key(name: Seq<char>, a: AttributesView) -> CookieIdView {
    CookieIdView { name, path: a.path, domain: a.domain }
}

/// An outgoing cookie: a name, a value and its attributes. `max_age` is in
/// seconds.
#[derive(Clone, Debug, PartialEq, Eq)]
pub struct OutboundCookie {
    pub name: String,
    pub value: String,
    pub expires: Option<Expiration>,
    pub max_age: Option<i64>,
    pub domain: Option<String>,
    pub path: Option<String>,
    pub secure: Option<bool>,
    pub http_only: Option<bool>,
    pub same_site: Option<SameSite>,
    pub partitioned: Option<bool>,
}

/// The mathematical model of an [`OutboundCookie`].
pub struct OutboundCookieView {
    pub name: Seq<char>,
    pub value: Seq<char>,
    pub expires: Option<ExpirationView>,
    pub max_age: Option<i64>,
    pub domain: Option<Seq<char>>,
    pub path: Option<Seq<char>>,
    pub secure: Option<bool>,
    pub http_only: Option<bool>,
    pub same_site: Option<SameSite>,
    pub partitioned: Option<bool>,
}

impl OutboundCookieView {
    /// A cookie with a name and a value and no attribute.
    pub open spec fn bare(name: Seq<char>, value: Seq<char>) -> OutboundCookieView {
        OutboundCookieView {
            name,
            value,
            expires: None,
            max_age: None,
            domain: None,
            path: None,
            secure: None,
            http_only: None,
            same_site: None,
            partitioned: None,
        }
    }

    /// The cookie that tells the browser to forget `id`: no value, and an
    /// expiry at the Unix epoch, long past.
    pub open spec fn removal(id: CookieIdView) -> OutboundCookieView {
        OutboundCookieView {
            expires: Some(ExpirationView::DateTime(0)),
            domain: id.domain,
            path: id.path,
            ..Self::bare(id.name, Seq::empty())
        }
    }

    /// The triple that identifies this cookie.
    pub open spec fn id(self) -> CookieIdView {
        CookieIdView { name: self.name, path: self.path, domain: self.domain }
    }

    /// This cookie with the attributes `a` applied. Path and domain change
    /// only where `a` sets them. A permanent `a` gives the maximum age of
    /// twenty years and the expiry `until`, whatever maximum age and expiry
    /// `a` holds; otherwise the maximum age is that of `a`, and the expiry
    /// changes only where `a` sets it. The four other attributes are those
    /// of `a`.
    pub open spec fn with_attributes(self, a: AttributesView, until: int) -> OutboundCookieView {
        OutboundCookieView {
            name: self.name,
            value: self.value,
            expires: if a.permanent {
                Some(ExpirationView::DateTime(until))
            } else if a.expires is Some {
                a.expires
            } else {
                self.expires
            },
            max_age: if a.permanent {
                Some(TWENTY_YEARS)
            } else {
                a.max_age
            },
            domain: if a.domain is Some {
                a.domain
            } else {
                self.domain
            },
            path: if a.path is Some {
                a.path
            } else {
                self.path
            },
            secure: a.secure,
            http_only: a.http_only,
            same_site: a.same_site,
            partitioned: a.partitioned,
        }
    }

    /// Whether the browser is told `Secure`: where the flag is set, where
    /// the cookie is partitioned, and where `SameSite` is `None` and the
    /// flag was left open.
    pub open spec fn sends_secure(self) -> bool {
        ||| self.secure == Some(true)
        ||| self.partitioned == Some(true)
        ||| (self.secure is None && self.same_site == Some(SameSite::None))
    }
}

impl View for OutboundCookie {
    type V = OutboundCookieView;

    open spec fn view(&self) -> OutboundCookieView {
        OutboundCookieView {
            name: self.name@,
            value: self.value@,
            expires: expiry(self.expires),
            max_age: self.max_age,
            domain: text(self.domain),
            path: text(self.path),
            secure: self.secure,
            http_only: self.http_only,
            same_site: self.same_site,
            partitioned: self.partitioned,
        }
    }
}

/// A permanent cookie lives twenty years of 365 days, and neither the
/// maximum age nor the expiry set beside `permanent` changes anything of
/// it.
pub proof fn lemma_permanent_supersedes(
    cookie: OutboundCookieView,
    a: AttributesView,
    max_age: Option<i64>,
    expires: Option<ExpirationView>,
    until: int,
)
    requires
        a.permanent,
    ensures
        cookie.with_attributes(a, until).max_age == Some(TWENTY_YEARS),
        TWENTY_YEARS == 20 * 365 * 24 * 60 * 60,
        cookie.with_attributes(a, until).expires == Some(ExpirationView::DateTime(until)),
        cookie.with_attributes(a, until) == cookie.with_attributes(
            AttributesView { max_age, expires, ..a },
            until,
        ),
{
}

/// `domain` without one leading dot, if it has one.
pub open spec fn without_dot(domain: Seq<char>) -> Seq<char> {
    if domain.len() > 0 && domain[0] == '.' {
        domain.drop_first()
    } else {
        domain
    }
}

/// Calls `ResponseCookie::make_permanent` of the cookie-processing crate on
/// a cookie without attributes and returns the expiry that it set, in
/// seconds since the Unix epoch. The expiry is twenty years after the moment
/// of the call, so all that is stated of it is that it is an instant that an
/// expiry can name. The moment is read from the clock of the machine, which
/// the time crate takes to stand within the years that it can name.
#[verifier::external_body]
fn permanent_until() -> (r: i64)
    ensures
        MIN_SECOND <= r <= MAX_SECOND,
{
    let cookie = biscotti::ResponseCookie::new("", "").make_permanent();
    cookie.expires_datetime().unwrap().timestamp().as_second()
}

impl OutboundCookie {
    /// A cookie with a name and a value and no attribute.
    pub fn new(name: &str, value: String) -> (r: OutboundCookie)
        ensures
            r@ == OutboundCookieView::bare(name@, value@),
    {
        OutboundCookie {
            name: name.to_owned(),
            value,
            expires: None,
            max_age: None,
            domain: None,
            path: None,
            secure: None,
            http_only: None,
            same_site: None,
            partitioned: None,
        }
    }

    /// Applies `attributes` to this cookie, where `until` is the expiry of
    /// a permanent cookie. Path and domain change only where `attributes`
    /// sets them. Permanent attributes give the maximum age of twenty years
    /// and the expiry `until`, whatever maximum age and expiry is set beside;
    /// otherwise the maximum age is that of `attributes`, and the expiry
    /// changes only where `attributes` sets it. The four other attributes
    /// are always those of `attributes`.
    pub fn set_attributes_until(self, attributes: &Attributes, until: Moment) -> (r:
        OutboundCookie)
        ensures
            r@ == self@.with_attributes(attributes@, until@),
    {
        let mut out = self;
        if let Some(path) = attributes.path_ref() {
            out.path = Some(path.clone());
        }
        if let Some(domain) = attributes.domain_ref() {
            out.domain = Some(domain.clone());
        }
        let (secure, http_only, partitioned, same_site, max_age, expires, permanent) =
            attributes.rest();
        if permanent {
            out.max_age = Some(TWENTY_YEARS);
            out.expires = Some(Expiration::DateTime(until));
        } else {
            out.max_age = max_age;
            if let Some(e) = expires {
                out.expires = Some(e);
            }
        }
        out.secure = secure;
        out.http_only = http_only;
        out.same_site = same_site;
        out.partitioned = partitioned;
        out
    }

    /// Applies `attributes` to this cookie. A permanent cookie expires
    /// twenty years after the moment of the call, as the cookie-processing
    /// crate reckons it.
    pub fn set_attributes(self, attributes: &Attributes) -> (r: OutboundCookie)
        ensures
            exists|until: int|
                MIN_SECOND <= until <= MAX_SECOND && r@ == #[trigger] self@.with_attributes(
                    attributes@,
                    until,
                ),
            !attributes@.permanent ==> r@ == self@.with_attributes(attributes@, 0),
    {
        let until = if attributes.is_permanent() {
            match Moment::from_unix_seconds(permanent_until()) {
                Some(until) => until,
                None => Moment::unix_epoch(),
            }
        } else {
            Moment::unix_epoch()
        };
        let r = self.set_attributes_until(attributes, until);
        assert(r@ == self@.with_attributes(attributes@, until@));
        r
    }

    /// The triple that identifies this cookie.
    pub fn id(&self) -> (r: CookieId)
        ensures
            r@ == self@.id(),
    {
        CookieId { name: self.name.clone(), path: self.path.clone(), domain: self.domain.clone() }
    }

    /// The name and the value.
    pub fn name_value(&self) -> (r: (&str, &str))
        ensures
            r.0@ == self@.name,
            r.1@ == self@.value,
    {
        (self.name.as_str(), self.value.as_str())
    }

    /// The domain as the browser is told it: without one leading dot.
    pub fn domain(&self) -> (r: Option<String>)
        ensures
            text(r) == match self@.domain {
                Some(d) => Some(without_dot(d)),
                None => None,
            },
    {
        match &self.domain {
            Some(d) => {
                let s = d.as_str();
                let n = s.unicode_len();
                if n > 0 && s.get_char(0) == '.' {
                    let rest = s.substring_char(1, n);
                    assert(rest@ == s@.drop_first());
                    Some(rest.to_owned())
                } else {
                    Some(d.clone())
                }
            },
            None => None,
        }
    }

    /// Whether the browser is told `Secure`.
    pub fn sends_secure(&self) -> (r: bool)
        ensures
            r == self@.sends_secure(),
    {
        let secure = match self.secure {
            Some(b) => b,
            None => match self.same_site {
                Some(SameSite::None) => true,
                _ => false,
            },
        };
        let partitioned = match self.partitioned {
            Some(b) => b,
            None => false,
        };
        secure || partitioned
    }
}

} // verus!
