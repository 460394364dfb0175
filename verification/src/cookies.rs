//! Typed cookies: a cookie type names a cookie and says what is read from
//! it and what is written to it, and a [`Cookie`] of that type reads and
//! writes the storage of a request.

use crate::attributes::{Attributes, AttributesView};
use crate::outbound::{key, OutboundCookie, OutboundCookieView};
use crate::storage::Storage;
use serde_json::Value;
use std::marker::PhantomData;
use vstd::prelude::*;
use vstd::string::StringExecFns;

verus! {

/// A JSON value, of the JSON crate.
#[verifier::external_type_specification]
#[verifier::external_body]
pub struct ExValue(Value);

/// Why a cookie could not be read.
#[derive(Clone, Debug, PartialEq, Eq)]
pub enum CookieBoxError {
    /// No cookie of this name came in.
    NotFound(String),
    /// This value could not be read as that type.
    Deserialization(String, String),
}

/// The mathematical model of a [`CookieBoxError`].
pub enum CookieBoxErrorView {
    NotFound(Seq<char>),
    Deserialization(Seq<char>, Seq<char>),
}

impl View for CookieBoxError {
    type V = CookieBoxErrorView;

    open spec fn view(&self) -> CookieBoxErrorView {
        match self {
            CookieBoxError::NotFound(name) => CookieBoxErrorView::NotFound(name@),
            CookieBoxError::Deserialization(raw, shape) => CookieBoxErrorView::Deserialization(
                raw@,
                shape@,
            ),
        }
    }
}

impl CookieBoxErrorView {
    /// The error in words.
    pub open spec fn message(self) -> Seq<char> {
        match self {
            CookieBoxErrorView::NotFound(name) => "`"@ + name + "` does not exist"@,
            CookieBoxErrorView::Deserialization(raw, shape) => "Failed to deserialize `"@ + raw
                + "` to type `"@ + shape + "`"@,
        }
    }
}

impl CookieBoxError {
    /// The error in words.
    pub fn message(&self) -> (r: String)
        ensures
            r@ == self@.message(),
    {
        match self {
            CookieBoxError::NotFound(name) => {
                String::from_str("`").concat(name.as_str()).concat("` does not exist")
            },
            CookieBoxError::Deserialization(raw, shape) => {
                String::from_str("Failed to deserialize `").concat(raw.as_str()).concat(
                    "` to type `",
                ).concat(shape.as_str()).concat("`")
            },
        }
    }
}

/// A cookie type: it gives the cookie its name.
pub trait CookieName {
    const COOKIE_NAME: &'static str;
}

/// A cookie type that can be read.
pub trait IncomingConfig: CookieName {
    /// What a value of the cookie is read as.
    type Get;

    /// Reads a value of the cookie, if it can be read.
    fn deserialize(raw: &str) -> Option<Self::Get>;

    /// The name of the type that a value of the cookie is read as, for
    /// the error that says that one could not be read.
    fn shape() -> &'static str;
}

/// A cookie type that can be written and removed.
pub trait OutgoingConfig: CookieName {
    /// What is written to the cookie.
    type Insert;

    /// Turns what is written into JSON.
    fn serialize(values: Self::Insert) -> Value;

    /// The attributes that the cookie is written with, unless the handle
    /// holds its own.
    fn attributes() -> Attributes {
        Attributes::default()
    }
}

/// The text of a JSON value: what `Value::to_string` returns.
pub uninterp spec fn json_text(value: Value) -> Seq<char>;

/// `Value::to_string`: the JSON value as text.
#[verifier::external_body]
fn to_json_text(value: &Value) -> (r: String)
    ensures
        r@ == json_text(*value),
{
    value.to_string()
}

/// Whether `after` is `before` with the cookie `name`, of the value
/// `payload` and the attributes `a`, written into it. `until` is the expiry
/// of a permanent cookie.
pub open spec fn written(
    before: Map<crate::outbound::CookieIdView, OutboundCookieView>,
    after: Map<crate::outbound::CookieIdView, OutboundCookieView>,
    name: Seq<char>,
    payload: Seq<char>,
    a: AttributesView,
    until: int,
) -> bool {
    after == before.insert(
        key(name, a),
        OutboundCookieView::bare(name, payload).with_attributes(a, until),
    )
}

/// The view of the error of a result, if it is one.
pub open spec fn error_of<G>(r: Result<G, CookieBoxError>) -> Option<CookieBoxErrorView> {
    match r {
        Ok(_) => None,
        Err(e) => Some(e@),
    }
}

/// Whether `r` is what reading `raw` as a `G` comes to, where `decoded` is
/// what the cookie type made of `raw`: the value where there is one, else
/// the error that holds `raw` and `shape`.
pub open spec fn reads_as<G>(
    r: Result<G, CookieBoxError>,
    raw: Seq<char>,
    shape: Seq<char>,
    decoded: Option<G>,
) -> bool {
    match decoded {
        Some(v) => r == Ok::<G, CookieBoxError>(v),
        None => error_of(r) == Some(CookieBoxErrorView::Deserialization(raw, shape)),
    }
}

/// What reading `raw` as a `G` comes to: the value where it could be read,
/// else the error that holds `raw` and the name of the type.
pub fn typed<G>(raw: String, shape: &str, decoded: Option<G>) -> (r: Result<G, CookieBoxError>)
    ensures
        reads_as(r, raw@, shape@, decoded),
{
    match decoded {
        Some(v) => Ok(v),
        None => Err(CookieBoxError::Deserialization(raw, shape.to_owned())),
    }
}

/// Writes the cookie `name` with the JSON value `data` as its value and with
/// `attributes` into the storage, in place of the outbound cookie of the
/// same identity, if there is one. The expiry of a permanent cookie depends
/// on the moment of the call.
pub fn insert_value(storage: &mut Storage, name: &str, data: &Value, attributes: &Attributes)
    ensures
        final(storage)@.inbound == old(storage)@.inbound,
        exists|until: int| #[trigger]
            written(
                old(storage)@.outbound,
                final(storage)@.outbound,
                name@,
                json_text(*data),
                attributes@,
                until,
            ),
        !attributes@.permanent ==> written(
            old(storage)@.outbound,
            final(storage)@.outbound,
            name@,
            json_text(*data),
            attributes@,
            0,
        ),
{
    let payload = to_json_text(data);
    let bare = OutboundCookie::new(name, payload);
    let cookie = bare.set_attributes(attributes);
    let ghost until = choose|until: int| cookie@ == #[trigger] bare@.with_attributes(attributes@, until);
    storage.insert(cookie);
    assert(written(
        old(storage)@.outbound,
        storage@.outbound,
        name@,
        json_text(*data),
        attributes@,
        until,
    ));
}

/// A handle on the cookie of type `T` in the storage of a request.
pub struct Cookie<T> {
    attributes: Option<Attributes>,
    _marker: PhantomData<T>,
}

impl<T> Cookie<T> {
    /// The attributes that this handle writes with, if it holds its own.
    pub closed spec fn overrides(&self) -> Option<AttributesView> {
        match self.attributes {
            Some(a) => Some(a@),
            None => None,
        }
    }

    /// A handle that writes with the attributes of the cookie type.
    pub fn new() -> (r: Self)
        ensures
            r.overrides() is None,
    {
        Cookie { attributes: None, _marker: PhantomData }
    }

    /// A handle that writes with `attributes`, whatever the cookie type
    /// says: none of the type's attributes is used.
    pub fn with_attributes(attributes: Attributes) -> (r: Self)
        ensures
            r.overrides() == Some(attributes@),
    {
        Cookie { attributes: Some(attributes), _marker: PhantomData }
    }
}

/// Whether `decoded` is something that the cookie type `T` may make of the
/// value `raw`.
pub open spec fn decodes<T: IncomingConfig>(raw: Seq<char>, decoded: Option<T::Get>) -> bool {
    exists|text: &str| text@ == raw && #[trigger] call_ensures(T::deserialize, (text,), decoded)
}

/// Whether `a` are the attributes that a handle with the attributes `own`,
/// or with none, writes with: its own, if it holds any, else some that the
/// cookie type `T` may give.
pub open spec fn resolves<T: OutgoingConfig>(own: Option<AttributesView>, a: AttributesView) -> bool {
    match own {
        Some(own) => a == own,
        None => exists|given: Attributes| #[trigger]
            call_ensures(T::attributes, (), given) && given@ == a,
    }
}

/// Whether `shape` is a name that the cookie type `T` may give to what its
/// values are read as.
pub open spec fn shaped<T: IncomingConfig>(shape: Seq<char>) -> bool {
    exists|name: &'static str| name@ == shape && #[trigger] call_ensures(T::shape, (), name)
}

/// Whether `e` says that the cookie type `T` could not read `raw`: it holds
/// `raw` and a name that `T` gives to what its values are read as.
pub open spec fn refuses<T: IncomingConfig>(e: CookieBoxErrorView, raw: Seq<char>) -> bool {
    exists|shape: Seq<char>| #[trigger]
        shaped::<T>(shape) && e == CookieBoxErrorView::Deserialization(raw, shape)
}

/// Whether the cookie type `T` may make a value of `raw`.
pub open spec fn readable<T: IncomingConfig>(raw: Seq<char>) -> bool {
    exists|v: T::Get| decodes::<T>(raw, Some(v))
}

/// Whether reading the values `all` one after the other ends at the value
/// `i` with the error `e`: the cookie type made something of each value
/// before it and nothing of it, and `e` holds that value.
pub open spec fn stops_at<T: IncomingConfig>(
    all: Seq<Seq<char>>,
    e: CookieBoxErrorView,
    i: int,
) -> bool {
    &&& 0 <= i < all.len()
    &&& decodes::<T>(all[i], None)
    &&& refuses::<T>(e, all[i])
    &&& forall|j: int| 0 <= j < i ==> readable::<T>(#[trigger] all[j])
}

impl<T: IncomingConfig> Cookie<T> {
    /// Reads the first inbound value of the cookie: it is not found if no
    /// value of that name came in; else the cookie type reads the first, and
    /// what it makes of it decides between the value and the error, which
    /// holds the value and the name that the cookie type gives to what it
    /// reads.
    pub fn get(&self, storage: &Storage) -> (r: Result<T::Get, CookieBoxError>)
        ensures
            !storage@.inbound.dom().contains(T::COOKIE_NAME@) ==> error_of(r) == Some(
                CookieBoxErrorView::NotFound(T::COOKIE_NAME@),
            ),
            storage@.inbound.dom().contains(T::COOKIE_NAME@) ==> exists|
                decoded: Option<T::Get>,
                shape: Seq<char>,
            |
                decodes::<T>(storage@.inbound[T::COOKIE_NAME@][0], decoded) && shaped::<T>(shape)
                    && #[trigger] reads_as(
                    r,
                    storage@.inbound[T::COOKIE_NAME@][0],
                    shape,
                    decoded,
                ),
    {
        match storage.get(T::COOKIE_NAME) {
            None => Err(CookieBoxError::NotFound(T::COOKIE_NAME.to_owned())),
            Some(raw) => {
                let text = raw.as_str();
                let decoded = T::deserialize(text);
                let shape = T::shape();
                assert(call_ensures(T::deserialize, (text,), decoded));
                assert(call_ensures(T::shape, (), shape));
                assert(shaped::<T>(shape@));
                let r = typed(raw, shape, decoded);
                assert(reads_as(r, storage@.inbound[T::COOKIE_NAME@][0], shape@, decoded));
                r
            },
        }
    }

    /// Reads all inbound values of the cookie, in the order of arrival: it
    /// is not found if no value of that name came in; else the cookie type
    /// reads one after the other, and the first that it cannot read ends it
    /// with the error of that value. A list that is returned is never
    /// empty.
    pub fn get_all(&self, storage: &Storage) -> (r: Result<Vec<T::Get>, CookieBoxError>)
        ensures
            !storage@.inbound.dom().contains(T::COOKIE_NAME@) ==> error_of(r) == Some(
                CookieBoxErrorView::NotFound(T::COOKIE_NAME@),
            ),
            storage@.inbound.dom().contains(T::COOKIE_NAME@) ==> match r {
                Ok(v) => v.len() > 0 && v.len() == storage@.inbound[T::COOKIE_NAME@].len()
                    && forall|i: int|
                    0 <= i < v.len() ==> decodes::<T>(
                        storage@.inbound[T::COOKIE_NAME@][i],
                        Some(#[trigger] v[i]),
                    ),
                Err(e) => exists|i: int| #[trigger]
                    stops_at::<T>(storage@.inbound[T::COOKIE_NAME@], e@, i),
            },
    {
        let raws = match storage.get_all(T::COOKIE_NAME) {
            None => {
                return Err(CookieBoxError::NotFound(T::COOKIE_NAME.to_owned()));
            },
            Some(raws) => raws,
        };
        let ghost all = storage@.inbound[T::COOKIE_NAME@];
        let shape = T::shape();
        assert(call_ensures(T::shape, (), shape));
        let mut out: Vec<T::Get> = Vec::new();
        let mut i: usize = 0;
        assert(crate::header::texts(raws@).len() == raws.len());
        while i < raws.len()
            invariant
                i <= raws.len(),
                out.len() == i,
                crate::header::texts(raws@) == all,
                all.len() == raws.len(),
                all == storage@.inbound[T::COOKIE_NAME@],
                storage@.inbound.dom().contains(T::COOKIE_NAME@),
                shaped::<T>(shape@),
                forall|j: int| 0 <= j < i ==> decodes::<T>(all[j], Some(#[trigger] out[j])),
            decreases raws.len() - i,
        {
            let text = raws[i].as_str();
            let decoded = T::deserialize(text);
            assert(all[i as int] == raws[i as int]@);
            assert(call_ensures(T::deserialize, (text,), decoded));
            assert(decodes::<T>(all[i as int], decoded));
            match typed(raws[i].clone(), shape, decoded) {
                Ok(v) => {
                    out.push(v);
                },
                Err(e) => {
                    assert(decoded is None);
                    assert(e@ == CookieBoxErrorView::Deserialization(all[i as int], shape@));
                    assert(refuses::<T>(e@, all[i as int]));
                    assert forall|j: int| 0 <= j < i implies readable::<T>(#[trigger] all[j]) by {
                        assert(decodes::<T>(all[j], Some(out[j])));
                    }
                    assert(stops_at::<T>(all, e@, i as int));
                    return Err(e);
                },
            }
            i = i + 1;
        }
        Ok(out)
    }
}

impl<T: OutgoingConfig> Cookie<T> {
    /// Writes the cookie with `value`, in place of the outbound cookie of
    /// the same identity, if there is one. The cookie type turns `value`
    /// into JSON, whose text is the value of the cookie. The attributes are
    /// those of the handle if it holds its own, else those that the cookie
    /// type gives. The expiry of a permanent cookie depends on the moment of
    /// the call.
    pub fn insert(&self, storage: &mut Storage, value: T::Insert)
        ensures
            final(storage)@.inbound == old(storage)@.inbound,
            exists|data: Value, a: AttributesView, until: int|
                call_ensures(T::serialize, (value,), data) && resolves::<T>(self.overrides(), a)
                    && #[trigger] written(
                    old(storage)@.outbound,
                    final(storage)@.outbound,
                    T::COOKIE_NAME@,
                    json_text(data),
                    a,
                    until,
                ),
    {
        let data = T::serialize(value);
        match &self.attributes {
            Some(attributes) => {
                insert_value(storage, T::COOKIE_NAME, &data, attributes);
                assert(resolves::<T>(self.overrides(), attributes@));
            },
            None => {
                let attributes = T::attributes();
                insert_value(storage, T::COOKIE_NAME, &data, &attributes);
                assert(call_ensures(T::attributes, (), attributes));
                assert(resolves::<T>(self.overrides(), attributes@));
            },
        }
    }

    /// Writes the cookie that tells the browser to forget this one, in
    /// place of the outbound cookie of the same identity, if there is one:
    /// it has no value and expires at the Unix epoch. Path and domain are
    /// those of the handle's attributes if it holds its own, else those of
    /// the attributes that the cookie type gives.
    pub fn remove(&self, storage: &mut Storage)
        ensures
            final(storage)@.inbound == old(storage)@.inbound,
            exists|a: AttributesView| #[trigger]
                resolves::<T>(self.overrides(), a) && final(storage)@.outbound
                    == old(storage)@.outbound.insert(
                    key(T::COOKIE_NAME@, a),
                    OutboundCookieView::removal(key(T::COOKIE_NAME@, a)),
                ),
    {
        match &self.attributes {
            Some(attributes) => {
                storage.remove(T::COOKIE_NAME, attributes);
                assert(resolves::<T>(self.overrides(), attributes@));
            },
            None => {
                let attributes = T::attributes();
                storage.remove(T::COOKIE_NAME, &attributes);
                assert(call_ensures(T::attributes, (), attributes));
                assert(resolves::<T>(self.overrides(), attributes@));
            },
        }
    }

    /// Takes back the outbound cookie of this identity, whatever it is, and
    /// tells the browser nothing. Path and domain are those of the handle's
    /// attributes if it holds its own, else those of the attributes that the
    /// cookie type gives.
    pub fn discard(&self, storage: &mut Storage)
        ensures
            final(storage)@.inbound == old(storage)@.inbound,
            exists|a: AttributesView| #[trigger]
                resolves::<T>(self.overrides(), a) && final(storage)@.outbound
                    == old(storage)@.outbound.remove(key(T::COOKIE_NAME@, a)),
    {
        match &self.attributes {
            Some(attributes) => {
                storage.discard(T::COOKIE_NAME, attributes);
                assert(resolves::<T>(self.overrides(), attributes@));
            },
            None => {
                let attributes = T::attributes();
                storage.discard(T::COOKIE_NAME, &attributes);
                assert(call_ensures(T::attributes, (), attributes));
                assert(resolves::<T>(self.overrides(), attributes@));
            },
        }
    }
}

} // verus!
