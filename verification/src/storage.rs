//! The cookies of one request: those that came in with it and those that
//! will go out with the response.

use crate::attributes::{
    text, Attributes, Expiration, ExpirationView, Moment, MAX_SECOND, MIN_SECOND,
};
use crate::header::texts;
use crate::outbound::{key, CookieId, CookieIdView, OutboundCookie, OutboundCookieView};
use biscotti::time::tz::TimeZone;
use biscotti::time::{SignedDuration, Timestamp};
use biscotti::{Processor, RemovalCookie, RequestCookie, RequestCookies, ResponseCookie};
use biscotti::{ResponseCookieId, ResponseCookies, SameSite};
use vstd::prelude::*;

verus! {

/// The collection of request cookies of the cookie-processing crate.
#[verifier::external_type_specification]
#[verifier::external_body]
pub struct ExRequestCookies<'c>(RequestCookies<'c>);

/// The collection of response cookies of the cookie-processing crate.
#[verifier::external_type_specification]
#[verifier::external_body]
pub struct ExResponseCookies<'c>(ResponseCookies<'c>);

/// What encrypts, signs and encodes cookies, of the cookie-processing crate.
#[verifier::external_type_specification]
#[verifier::external_body]
pub struct ExProcessor(Processor);

/// What a collection of request cookies holds: for each name that occurs,
/// the values under it in the order in which they were appended.
pub uninterp spec fn inbound_entries(cookies: RequestCookies<'static>) -> Map<Seq<char>, Seq<Seq<char>>>;

/// What a collection of response cookies holds: for each identity that
/// occurs, the one cookie under it.
pub uninterp spec fn outbound_entries(cookies: ResponseCookies<'static>) -> Map<CookieIdView, OutboundCookieView>;

/// No inbound cookies.
pub open spec fn no_inbound() -> Map<Seq<char>, Seq<Seq<char>>> {
    Map::empty()
}

/// No outbound cookies.
pub open spec fn no_outbound() -> Map<CookieIdView, OutboundCookieView> {
    Map::empty()
}

/// The inbound cookies `m` with `value` appended under `name`.
pub open spec fn appended(
    m: Map<Seq<char>, Seq<Seq<char>>>,
    name: Seq<char>,
    value: Seq<char>,
) -> Map<Seq<char>, Seq<Seq<char>>> {
    if m.dom().contains(name) {
        m.insert(name, m[name].push(value))
    } else {
        m.insert(name, seq![value])
    }
}

/// Whether the expiry of `cookie`, if it names an instant, names one that
/// an expiry can name.
pub open spec fn expiry_in_range(cookie: OutboundCookieView) -> bool {
    match cookie.expires {
        Some(ExpirationView::DateTime(second)) => MIN_SECOND <= second
            <= MAX_SECOND,
        _ => true,
    }
}

/// `RequestCookies::new`: a collection that holds nothing.
#[verifier::external_body]
fn request_new() -> (r: RequestCookies<'static>)
    ensures
        inbound_entries(r) == no_inbound(),
{
    RequestCookies::new()
}

/// `RequestCookies::append`: pushes the value behind those already under the
/// name, and reports whether the name was there before.
#[verifier::external_body]
fn request_append(storage: &mut Storage, name: String, value: String) -> (r: bool)
    ensures
        final(storage)@.inbound == appended(old(storage)@.inbound, name@, value@),
        final(storage)@.outbound == old(storage)@.outbound,
        r == old(storage)@.inbound.dom().contains(name@),
{
    storage.request_storage.append(RequestCookie::new(name, value))
}

/// `RequestCookies::get`: the first value under the name, if the name
/// occurs. The crate takes the first of the values without a test, so a
/// name under which nothing stands is left out.
#[verifier::external_body]
fn request_get(cookies: &RequestCookies<'static>, name: &str) -> (r: Option<String>)
    requires
        inbound_entries(*cookies).dom().contains(name@) ==> inbound_entries(*cookies)[name@].len()
            > 0,
    ensures
        r is Some <==> inbound_entries(*cookies).dom().contains(name@),
        r matches Some(v) ==> v@ == inbound_entries(*cookies)[name@][0],
{
    cookies.get(name).map(|c| c.value().to_owned())
}

/// `RequestCookies::get_all`: all the values under the name in their order,
/// if the name occurs.
#[verifier::external_body]
fn request_get_all(cookies: &RequestCookies<'static>, name: &str) -> (r: Option<Vec<String>>)
    ensures
        r is Some <==> inbound_entries(*cookies).dom().contains(name@),
        r matches Some(v) ==> texts(v@) == inbound_entries(*cookies)[name@],
{
    cookies.get_all(name).map(|all| all.values().map(|v| v.to_owned()).collect())
}

/// `ResponseCookies::new`: a collection that holds nothing.
#[verifier::external_body]
fn response_new() -> (r: ResponseCookies<'static>)
    ensures
        outbound_entries(r) == no_outbound(),
{
    ResponseCookies::new()
}

/// `ResponseCookies::insert`: the cookie takes the place under its
/// identity, whether one stood there or not. The body writes `cookie` in
/// the crate's own type, attribute by attribute; its expiry comes beside it
/// in seconds, as `expires`.
#[verifier::external_body]
fn response_insert(storage: &mut Storage, cookie: OutboundCookie, expires: Option<Option<i64>>)
    requires
        plain_expiry(expires) == cookie@.expires,
        expiry_in_range(cookie@),
    ensures
        final(storage)@.inbound == old(storage)@.inbound,
        final(storage)@.outbound == old(storage)@.outbound.insert(cookie@.id(), cookie@),
{
    let mut c = ResponseCookie::new(cookie.name, cookie.value)
        .set_secure(cookie.secure)
        .set_http_only(cookie.http_only)
        .set_same_site(cookie.same_site)
        .set_partitioned(cookie.partitioned)
        .set_max_age(cookie.max_age.map(SignedDuration::from_secs));
    c = match cookie.path { Some(p) => c.set_path(p), None => c };
    c = match cookie.domain { Some(d) => c.set_domain(d), None => c };
    c = match expires {
        Some(Some(s)) => c.set_expires(Timestamp::from_second(s).unwrap().to_zoned(TimeZone::UTC)),
        Some(None) => c.set_expires(biscotti::Expiration::Session),
        None => c,
    };
    storage.response_storage.insert(c);
}

/// `ResponseCookies::insert` with a `RemovalCookie`: what takes the place
/// under the identity has no value, the path and domain of the identity, an
/// expiry at the Unix epoch, and nothing else.
#[verifier::external_body]
fn response_insert_removal(storage: &mut Storage, id: CookieId)
    ensures
        final(storage)@.inbound == old(storage)@.inbound,
        final(storage)@.outbound == old(storage)@.outbound.insert(
            id@,
            OutboundCookieView::removal(id@),
        ),
{
    let mut c = RemovalCookie::new(id.name);
    c = match id.path { Some(p) => c.set_path(p), None => c };
    c = match id.domain { Some(d) => c.set_domain(d), None => c };
    storage.response_storage.insert(c);
}

/// `ResponseCookies::discard`: nothing stands under the identity after it.
#[verifier::external_body]
fn response_discard(storage: &mut Storage, id: CookieId)
    ensures
        final(storage)@.inbound == old(storage)@.inbound,
        final(storage)@.outbound == old(storage)@.outbound.remove(id@),
{
    let mut i = ResponseCookieId::new(id.name);
    i = match id.path { Some(p) => i.set_path(p), None => i };
    i = match id.domain { Some(d) => i.set_domain(d), None => i };
    storage.response_storage.discard(i);
}

/// `ResponseCookies::get`, then `ResponseCookie::value`: the value of the
/// cookie under the identity, if there is one.
#[verifier::external_body]
fn response_value(cookies: &ResponseCookies<'static>, id: &CookieId) -> (r: Option<String>)
    ensures
        r is Some <==> outbound_entries(*cookies).dom().contains(id@),
        r matches Some(v) ==> v@ == outbound_entries(*cookies)[id@].value,
{
    let mut i = ResponseCookieId::new(id.name.as_str());
    i = match &id.path { Some(p) => i.set_path(p.as_str()), None => i };
    i = match &id.domain { Some(d) => i.set_domain(d.as_str()), None => i };
    cookies.get(i).map(|c| c.value().to_owned())
}

/// `ResponseCookies::get`, then the cookie's `secure`, `http_only`,
/// `same_site`, `partitioned`, `max_age` (in seconds) and `expires` (an
/// instant in seconds since the Unix epoch, or the session), in this order,
/// if there is a cookie under the identity. An instant of the time crate
/// is always one that an expiry can name.
#[verifier::external_body]
fn response_flags(cookies: &ResponseCookies<'static>, id: &CookieId) -> (r: Option<Flags>)
    ensures
        r is Some <==> outbound_entries(*cookies).dom().contains(id@),
        r matches Some(f) ==> flags_of(outbound_entries(*cookies)[id@], f),
{
    let mut i = ResponseCookieId::new(id.name.as_str());
    i = match &id.path { Some(p) => i.set_path(p.as_str()), None => i };
    i = match &id.domain { Some(d) => i.set_domain(d.as_str()), None => i };
    let c = cookies.get(i)?;
    let expires = c.expires().map(|e| e.datetime().map(|z| z.timestamp().as_second()));
    let age = c.max_age().map(|d| d.as_secs());
    Some((c.secure(), c.http_only(), c.same_site(), c.partitioned(), age, expires))
}

/// `ResponseCookies::iter`, then `ResponseCookie::id` on each cookie: the
/// identities that occur, each one once, in no stated order.
#[verifier::external_body]
fn response_ids(cookies: &ResponseCookies<'static>) -> (r: Vec<CookieId>)
    ensures
        ids(r@).no_duplicates(),
        ids(r@).to_set() == outbound_entries(*cookies).dom(),
{
    cookies.iter().map(|c| c.id()).map(|i| CookieId {
        name: i.name().to_owned(),
        path: i.path().map(|p| p.to_owned()),
        domain: i.domain().map(|d| d.to_owned()),
    }).collect()
}

/// `ResponseCookies::header_values` on what the collection held, which
/// then holds nothing: one `Set-Cookie` value for each cookie. What each
/// value says depends on the processor, which may encrypt with a fresh
/// nonce, and their order on the collection; nothing is stated of either.
/// To write an expiry at an instant the crate asks the machine's time zone
/// database for GMT and panics where it gets no answer, so without `gmt` no
/// cookie may expire at an instant.
#[verifier::external_body]
fn response_header_values(storage: &mut Storage, processor: &Processor, gmt: &Option<Gmt>) -> (r:
    Vec<String>)
    requires
        gmt is None ==> !any_timed(old(storage)@.outbound),
    ensures
        final(storage)@.inbound == old(storage)@.inbound,
        final(storage)@.outbound == no_outbound(),
        r.len() == old(storage)@.outbound.dom().len(),
{
    std::mem::take(&mut storage.response_storage).header_values(processor).collect()
}

/// The attributes of an outgoing cookie that its identity does not hold:
/// `secure`, `http_only`, `same_site`, `partitioned`, `max_age`, `expires`.
pub type Flags = (
    Option<bool>,
    Option<bool>,
    Option<SameSite>,
    Option<bool>,
    Option<i64>,
    Option<Option<i64>>,
);

/// Whether `f` holds the attributes of `cookie`.
pub open spec fn flags_of(cookie: OutboundCookieView, f: Flags) -> bool {
    &&& f.0 == cookie.secure
    &&& f.1 == cookie.http_only
    &&& f.2 == cookie.same_site
    &&& f.3 == cookie.partitioned
    &&& f.4 == cookie.max_age
    &&& plain_expiry(f.5) == cookie.expires
    &&& expiry_in_range(cookie)
}

/// The expiry that `e` stands for: none, the session, or the instant so
/// many seconds after the Unix epoch.
pub open spec fn plain_expiry(e: Option<Option<i64>>) -> Option<ExpirationView> {
    match e {
        None => None,
        Some(None) => Some(ExpirationView::Session),
        Some(Some(second)) => Some(ExpirationView::DateTime(second as int)),
    }
}

/// Whether `cookie` expires at an instant.
pub open spec fn timed(cookie: OutboundCookieView) -> bool {
    cookie.expires matches Some(ExpirationView::DateTime(_))
}

/// Whether one of the outbound cookies `m` expires at an instant.
pub open spec fn any_timed(m: Map<CookieIdView, OutboundCookieView>) -> bool {
    exists|k: CookieIdView| m.dom().contains(k) && timed(#[trigger] m[k])
}

/// What shows that the time zone database of the machine knows GMT: it is
/// made only where the database was asked and answered.
pub struct Gmt {
    known: (),
}

/// `TimeZone::get` of the time crate, asked for `GMT`: whether the time
/// zone database of the machine knows that zone. The answer depends on the
/// machine, so nothing is stated of it.
#[verifier::external_body]
fn gmt() -> (r: Option<Gmt>) {
    TimeZone::get("GMT").ok().map(|_| Gmt { known: () })
}

/// The views of a sequence of identities.
pub open spec fn ids(v: Seq<CookieId>) -> Seq<CookieIdView> {
    v.map_values(|i: CookieId| i@)
}

/// The first value under `name`, if `name` occurs.
pub open spec fn first_value(m: Map<Seq<char>, Seq<Seq<char>>>, name: Seq<char>) -> Option<Seq<char>> {
    if m.dom().contains(name) {
        Some(m[name][0])
    } else {
        None
    }
}

/// The cookies of one request. It is made empty when the request arrives,
/// filled with the cookies of the request header, handed to the handler,
/// which reads the inbound cookies and writes the outbound ones, and drained
/// when the handler is done.
pub struct Storage {
    request_storage: RequestCookies<'static>,
    response_storage: ResponseCookies<'static>,
}

/// The mathematical model of a [`Storage`].
pub struct StorageView {
    /// For each name that came in, its values in the order of arrival.
    pub inbound: Map<Seq<char>, Seq<Seq<char>>>,
    /// For each identity written, the cookie that was written last.
    pub outbound: Map<CookieIdView, OutboundCookieView>,
}

impl View for Storage {
    type V = StorageView;

    closed spec fn view(&self) -> StorageView {
        StorageView {
            inbound: inbound_entries(self.request_storage),
            outbound: outbound_entries(self.response_storage),
        }
    }
}

impl Storage {
    #[verifier::type_invariant]
    spec fn well_formed(self) -> bool {
        &&& forall|n: Seq<char>| #[trigger]
            self@.inbound.dom().contains(n) ==> self@.inbound[n].len() > 0
        &&& self@.outbound.dom().finite()
        &&& forall|k: CookieIdView| #[trigger]
            self@.outbound.dom().contains(k) ==> self@.outbound[k].id() == k && expiry_in_range(
                self@.outbound[k],
            )
    }

    /// A storage that holds nothing.
    pub fn new() -> (r: Storage)
        ensures
            r@.inbound == no_inbound(),
            r@.outbound == no_outbound(),
    {
        Storage { request_storage: request_new(), response_storage: response_new() }
    }

    /// Adds an inbound cookie behind those that share its name.
    pub fn append(&mut self, name: &str, value: &str)
        ensures
            final(self)@.inbound == appended(old(self)@.inbound, name@, value@),
            final(self)@.outbound == old(self)@.outbound,
    {
        proof {
            use_type_invariant(&*self);
        }
        request_append(self, name.to_owned(), value.to_owned());
    }

    /// The first inbound value under `name`, if there is one.
    pub fn get(&self, name: &str) -> (r: Option<String>)
        ensures
            text(r) == first_value(self@.inbound, name@),
    {
        proof {
            use_type_invariant(self);
        }
        request_get(&self.request_storage, name)
    }

    /// All inbound values under `name` in the order of arrival, if there
    /// is one.
    pub fn get_all(&self, name: &str) -> (r: Option<Vec<String>>)
        ensures
            r is Some <==> self@.inbound.dom().contains(name@),
            r matches Some(v) ==> texts(v@) == self@.inbound[name@] && v.len()
                == self@.inbound[name@].len() && v.len() > 0,
    {
        proof {
            use_type_invariant(self);
        }
        let r = request_get_all(&self.request_storage, name);
        assert(r matches Some(v) ==> texts(v@).len() == v.len());
        r
    }

    /// Writes an outbound cookie. It replaces the cookie of the same
    /// identity, if there is one.
    pub fn insert(&mut self, cookie: OutboundCookie)
        ensures
            final(self)@.inbound == old(self)@.inbound,
            final(self)@.outbound == old(self)@.outbound.insert(cookie@.id(), cookie@),
    {
        proof {
            use_type_invariant(&*self);
        }
        let expires = match &cookie.expires {
            Some(Expiration::DateTime(moment)) => Some(Some(moment.unix_seconds())),
            Some(Expiration::Session) => Some(None),
            None => None,
        };
        response_insert(self, cookie, expires);
    }

    /// Writes the cookie that tells the browser to forget the cookie `name`
    /// with the path and the domain of `attributes`. It replaces the cookie
    /// of the same identity, if there is one.
    pub fn remove(&mut self, name: &str, attributes: &Attributes)
        ensures
            final(self)@.inbound == old(self)@.inbound,
            final(self)@.outbound == old(self)@.outbound.insert(
                key(name@, attributes@),
                OutboundCookieView::removal(key(name@, attributes@)),
            ),
    {
        proof {
            use_type_invariant(&*self);
        }
        let id = CookieId::with_attributes(name, attributes);
        response_insert_removal(self, id);
    }

    /// Takes back the outbound cookie `name` with the path and the domain of
    /// `attributes`, whatever it is, and tells the browser nothing.
    pub fn discard(&mut self, name: &str, attributes: &Attributes)
        ensures
            final(self)@.inbound == old(self)@.inbound,
            final(self)@.outbound == old(self)@.outbound.remove(key(name@, attributes@)),
    {
        proof {
            use_type_invariant(&*self);
        }
        let id = CookieId::with_attributes(name, attributes);
        response_discard(self, id);
    }

    /// The outbound cookie under `id`, if there is one.
    pub fn get_outbound(&self, id: &CookieId) -> (r: Option<OutboundCookie>)
        ensures
            r is Some <==> self@.outbound.dom().contains(id@),
            r matches Some(c) ==> c@ == self@.outbound[id@],
    {
        proof {
            use_type_invariant(self);
        }
        let value = response_value(&self.response_storage, id);
        let flags = response_flags(&self.response_storage, id);
        match (value, flags) {
            (Some(value), Some(f)) => Some(
                OutboundCookie {
                    name: id.name.clone(),
                    value,
                    expires: match f.5 {
                        Some(Some(second)) => match Moment::from_unix_seconds(second) {
                            Some(moment) => Some(Expiration::DateTime(moment)),
                            None => None,
                        },
                        Some(None) => Some(Expiration::Session),
                        None => None,
                    },
                    max_age: f.4,
                    domain: id.domain.clone(),
                    path: id.path.clone(),
                    secure: f.0,
                    http_only: f.1,
                    same_site: f.2,
                    partitioned: f.3,
                },
            ),
            _ => None,
        }
    }

    /// Takes all outbound cookies out, each identity once, in no stated
    /// order. The storage holds no outbound cookie after it.
    pub fn drain(&mut self) -> (r: Vec<OutboundCookie>)
        ensures
            final(self)@.inbound == old(self)@.inbound,
            final(self)@.outbound == no_outbound(),
            r.len() == old(self)@.outbound.dom().len(),
            forall|i: int|
                0 <= i < r.len() ==> old(self)@.outbound.dom().contains(#[trigger] r[i]@.id())
                    && old(self)@.outbound[r[i]@.id()] == r[i]@,
            forall|i: int, j: int|
                0 <= i < j < r.len() ==> #[trigger] r[i]@.id() != #[trigger] r[j]@.id(),
    {
        proof {
            use_type_invariant(&*self);
        }
        let found = response_ids(&self.response_storage);
        proof {
            ids(found@).unique_seq_to_set();
        }
        let mut out: Vec<OutboundCookie> = Vec::new();
        let mut i: usize = 0;
        while i < found.len()
            invariant
                i <= found.len(),
                out.len() == i,
                ids(found@).to_set() == self@.outbound.dom(),
                forall|j: int|
                    0 <= j < i ==> (#[trigger] out[j])@.id() == found[j]@ && self@.outbound[found[j]@]
                        == out[j]@,
            decreases found.len() - i,
        {
            assert(ids(found@)[i as int] == found[i as int]@);
            assert(ids(found@).to_set().contains(found[i as int]@));
            match self.get_outbound(&found[i]) {
                Some(c) => {
                    proof {
                        use_type_invariant(&*self);
                    }
                    out.push(c);
                },
                None => {},
            }
            i = i + 1;
        }
        assert forall|a: int, b: int| 0 <= a < b < out.len() implies #[trigger] out[a]@.id()
            != #[trigger] out[b]@.id() by {
            assert(ids(found@)[a] == found[a]@);
            assert(ids(found@)[b] == found[b]@);
        }
        assert forall|a: int| 0 <= a < out.len() implies self@.outbound.dom().contains(
            #[trigger] out[a]@.id(),
        ) && self@.outbound[out[a]@.id()] == out[a]@ by {
            assert(ids(found@)[a] == found[a]@);
            assert(ids(found@).to_set().contains(found[a]@));
        }
        let fresh = response_new();
        proof {
            use_type_invariant(&*self);
            assert(outbound_entries(fresh).dom() =~= Set::empty());
            assert(outbound_entries(fresh).dom().finite());
            let next = Storage { request_storage: self.request_storage, response_storage: fresh };
            assert(next@.inbound == self@.inbound);
            assert(next.well_formed());
        }
        self.response_storage = fresh;
        out
    }

    /// Whether one of the outbound cookies expires at an instant.
    fn holds_timed(&self) -> (r: bool)
        ensures
            r == any_timed(self@.outbound),
    {
        proof {
            use_type_invariant(self);
        }
        let found = response_ids(&self.response_storage);
        let mut i: usize = 0;
        while i < found.len()
            invariant
                i <= found.len(),
                ids(found@).to_set() == self@.outbound.dom(),
                forall|j: int| 0 <= j < i ==> !timed(self@.outbound[#[trigger] found[j]@]),
            decreases found.len() - i,
        {
            assert(ids(found@)[i as int] == found[i as int]@);
            assert(ids(found@).to_set().contains(found[i as int]@));
            if let Some(cookie) = self.get_outbound(&found[i]) {
                if let Some(Expiration::DateTime(_)) = cookie.expires {
                    return true;
                }
            }
            i = i + 1;
        }
        assert forall|k: CookieIdView| self@.outbound.dom().contains(k) implies !timed(
            #[trigger] self@.outbound[k],
        ) by {
            assert(ids(found@).to_set().contains(k));
            let j = choose|j: int| 0 <= j < ids(found@).len() && ids(found@)[j] == k;
            assert(found[j]@ == k);
        }
        false
    }

    /// Takes all outbound cookies out and returns a `Set-Cookie` value for
    /// each, as `processor` encodes, signs or encrypts it, in no stated
    /// order. The storage holds no outbound cookie after it.
    ///
    /// An expiry at an instant is written in GMT, and `gmt` shows that the
    /// time zone database of the machine knows it. Nothing is returned if
    /// and only if there is no `gmt` and one of the cookies expires at an
    /// instant.
    pub fn render(&mut self, processor: &Processor, gmt: Option<Gmt>) -> (r: Option<Vec<String>>)
        ensures
            final(self)@.inbound == old(self)@.inbound,
            final(self)@.outbound == no_outbound(),
            r matches Some(v) ==> v.len() == old(self)@.outbound.dom().len(),
            r is None <==> gmt is None && any_timed(old(self)@.outbound),
    {
        if gmt.is_none() && self.holds_timed() {
            let fresh = response_new();
            proof {
                use_type_invariant(&*self);
                assert(outbound_entries(fresh).dom() =~= Set::empty());
                let next = Storage {
                    request_storage: self.request_storage,
                    response_storage: fresh,
                };
                assert(next@.inbound == self@.inbound);
                assert(next.well_formed());
            }
            self.response_storage = fresh;
            return None;
        }
        proof {
            use_type_invariant(&*self);
        }
        Some(response_header_values(self, processor, &gmt))
    }

    /// Takes all outbound cookies out and returns a `Set-Cookie` value for
    /// each, as `processor` encodes, signs or encrypts it, in no stated
    /// order. The storage holds no outbound cookie after it.
    ///
    /// It asks the time zone database of the machine for GMT and renders
    /// with the answer: nothing is returned only where one of the cookies
    /// expires at an instant, and then only if the database does not know
    /// GMT.
    pub fn header_values(&mut self, processor: &Processor) -> (r: Option<Vec<String>>)
        ensures
            final(self)@.inbound == old(self)@.inbound,
            final(self)@.outbound == no_outbound(),
            r matches Some(v) ==> v.len() == old(self)@.outbound.dom().len(),
            r is None ==> any_timed(old(self)@.outbound),
    {
        self.render(processor, gmt())
    }
}

/// The inbound cookies `m` after the pairs of name and value in `pairs`
/// were appended to it, first to last.
pub open spec fn appended_all(
    m: Map<Seq<char>, Seq<Seq<char>>>,
    pairs: Seq<(Seq<char>, Seq<char>)>,
) -> Map<Seq<char>, Seq<Seq<char>>>
    decreases pairs.len(),
{
    if pairs.len() == 0 {
        m
    } else {
        appended(appended_all(m, pairs.drop_last()), pairs.last().0, pairs.last().1)
    }
}

/// The values of the pairs in `pairs` whose name is `name`, in their order.
pub open spec fn values_under(pairs: Seq<(Seq<char>, Seq<char>)>, name: Seq<char>) -> Seq<
    Seq<char>,
>
    decreases pairs.len(),
{
    if pairs.len() == 0 {
        Seq::empty()
    } else if pairs.last().0 == name {
        values_under(pairs.drop_last(), name).push(pairs.last().1)
    } else {
        values_under(pairs.drop_last(), name)
    }
}

/// Where the first pair named `name` stands in `pairs`, the values under
/// `name` begin with its value.
pub proof fn lemma_first_under(pairs: Seq<(Seq<char>, Seq<char>)>, name: Seq<char>, i: int)
    requires
        0 <= i < pairs.len(),
        pairs[i].0 == name,
        forall|j: int| 0 <= j < i ==> pairs[j].0 != name,
    ensures
        values_under(pairs, name).len() > 0,
        values_under(pairs, name)[0] == pairs[i].1,
    decreases pairs.len(),
{
    let rest = pairs.drop_last();
    if i < pairs.len() - 1 {
        lemma_first_under(rest, name, i);
    } else {
        lemma_none_under(rest, name);
    }
}

/// Where no pair is named `name`, there are no values under `name`.
pub proof fn lemma_none_under(pairs: Seq<(Seq<char>, Seq<char>)>, name: Seq<char>)
    requires
        forall|j: int| 0 <= j < pairs.len() ==> pairs[j].0 != name,
    ensures
        values_under(pairs, name).len() == 0,
    decreases pairs.len(),
{
    if pairs.len() > 0 {
        lemma_none_under(pairs.drop_last(), name);
    }
}

/// There are values under `name` if and only if a pair is named `name`.
pub proof fn lemma_some_under(pairs: Seq<(Seq<char>, Seq<char>)>, name: Seq<char>)
    ensures
        values_under(pairs, name).len() > 0 <==> exists|i: int|
            0 <= i < pairs.len() && (#[trigger] pairs[i]).0 == name,
    decreases pairs.len(),
{
    if pairs.len() > 0 {
        let rest = pairs.drop_last();
        lemma_some_under(rest, name);
        if values_under(pairs, name).len() > 0 {
            if pairs.last().0 == name {
                assert(pairs[pairs.len() - 1].0 == name);
            } else {
                let i = choose|i: int| 0 <= i < rest.len() && (#[trigger] rest[i]).0 == name;
                assert(pairs[i].0 == name);
            }
        } else {
            assert forall|i: int| 0 <= i < pairs.len() implies (#[trigger] pairs[i]).0 != name by {
                if i < rest.len() {
                    assert(rest[i].0 != name);
                }
            }
        }
    }
}

/// After any pairs were appended to an empty storage, a name occurs if and
/// only if there are values under it among the pairs, and those are what
/// stands under it, in the order in which they were appended.
pub proof fn lemma_appended_all(pairs: Seq<(Seq<char>, Seq<char>)>, name: Seq<char>)
    ensures
        appended_all(no_inbound(), pairs).dom().contains(name) <==> values_under(pairs, name).len()
            > 0,
        appended_all(no_inbound(), pairs).dom().contains(name) ==> appended_all(
            no_inbound(),
            pairs,
        )[name] == values_under(pairs, name),
    decreases pairs.len(),
{
    if pairs.len() > 0 {
        let rest = pairs.drop_last();
        let before = appended_all(no_inbound(), rest);
        lemma_appended_all(rest, name);
        if pairs.last().0 == name && !before.dom().contains(name) {
            assert(values_under(rest, name) =~= Seq::empty());
            assert(values_under(pairs, name) =~= seq![pairs.last().1]);
        }
    }
}

/// After any pairs were appended to an empty storage, a name occurs if and
/// only if one of the pairs has it; under it stand the values of all pairs
/// of that name, in the order in which they were appended; and the first
/// value under it is the value of the first pair of that name.
pub proof fn lemma_appended_in_order(pairs: Seq<(Seq<char>, Seq<char>)>, name: Seq<char>)
    ensures
        appended_all(no_inbound(), pairs).dom().contains(name) <==> exists|i: int|
            0 <= i < pairs.len() && (#[trigger] pairs[i]).0 == name,
        appended_all(no_inbound(), pairs).dom().contains(name) ==> appended_all(
            no_inbound(),
            pairs,
        )[name] == values_under(pairs, name),
        forall|i: int|
            0 <= i < pairs.len() && (#[trigger] pairs[i]).0 == name && (forall|j: int|
                0 <= j < i ==> pairs[j].0 != name) ==> first_value(
                appended_all(no_inbound(), pairs),
                name,
            ) == Some(pairs[i].1),
{
    lemma_appended_all(pairs, name);
    lemma_some_under(pairs, name);
    assert forall|i: int|
        0 <= i < pairs.len() && (#[trigger] pairs[i]).0 == name && (forall|j: int|
            0 <= j < i ==> pairs[j].0 != name) implies first_value(
        appended_all(no_inbound(), pairs),
        name,
    ) == Some(pairs[i].1) by {
        lemma_first_under(pairs, name, i);
    }
}

/// After a cookie is written and then another of the same identity, the
/// storage holds what it would hold had only the second been written: one
/// cookie under that identity, the second.
pub proof fn lemma_last_write_wins(
    outbound: Map<CookieIdView, OutboundCookieView>,
    first: OutboundCookieView,
    second: OutboundCookieView,
)
    requires
        first.id() == second.id(),
    ensures
        outbound.insert(first.id(), first).insert(second.id(), second) == outbound.insert(
            second.id(),
            second,
        ),
        outbound.insert(first.id(), first).insert(second.id(), second)[second.id()] == second,
        no_outbound().insert(first.id(), first).insert(second.id(), second).dom() == set![
            second.id(),
        ],
{
    assert(outbound.insert(first.id(), first).insert(second.id(), second) =~= outbound.insert(
        second.id(),
        second,
    ));
    assert(no_outbound().insert(first.id(), first).insert(second.id(), second).dom() =~= set![
        second.id(),
    ]);
}

/// After a cookie is written and then the cookie of the same identity is
/// discarded, the storage holds nothing under that identity, and all else
/// as before the two.
pub proof fn lemma_discard_takes_back(
    outbound: Map<CookieIdView, OutboundCookieView>,
    cookie: OutboundCookieView,
)
    ensures
        !outbound.insert(cookie.id(), cookie).remove(cookie.id()).dom().contains(cookie.id()),
        outbound.insert(cookie.id(), cookie).remove(cookie.id()) == outbound.remove(cookie.id()),
        no_outbound().insert(cookie.id(), cookie).remove(cookie.id()) == no_outbound(),
{
    assert(outbound.insert(cookie.id(), cookie).remove(cookie.id()) =~= outbound.remove(
        cookie.id(),
    ));
    assert(no_outbound().insert(cookie.id(), cookie).remove(cookie.id()) =~= no_outbound());
}

/// After the removal of a cookie, the storage holds one cookie under its
/// identity: it has no value and expires at the Unix epoch, whatever stood
/// there before.
pub proof fn lemma_removal_is_past(
    outbound: Map<CookieIdView, OutboundCookieView>,
    id: CookieIdView,
)
    ensures
        outbound.insert(id, OutboundCookieView::removal(id))[id].value.len() == 0,
        outbound.insert(id, OutboundCookieView::removal(id))[id].expires == Some(
            ExpirationView::DateTime(0),
        ),
        outbound.insert(id, OutboundCookieView::removal(id))[id].id() == id,
        no_outbound().insert(id, OutboundCookieView::removal(id)).dom() == set![id],
{
    assert(no_outbound().insert(id, OutboundCookieView::removal(id)).dom() =~= set![id]);
}

} // verus!
