//! What happens around the handler of a request: before it, the cookies of
//! the request header are read, processed and stored; after it, the cookies
//! that the handler wrote are turned into `Set-Cookie` header values.

use crate::header::{classify, parse_segment, segments, split, texts, Segment, SegmentView};
use crate::storage::{appended, no_outbound, Storage};
use actix_web::http::header::HeaderValue;
use biscotti::errors::ProcessIncomingError;
use biscotti::Processor;
use std::rc::Rc;
use vstd::prelude::*;
use vstd::string::StringExecFns;
use vstd::utf8::encode_utf8;

verus! {

/// A value of an HTTP header, of the web framework.
#[verifier::external_type_specification]
#[verifier::external_body]
pub struct ExHeaderValue(HeaderValue);

/// Why the processor refused an incoming cookie.
#[derive(Clone, Copy, Debug, PartialEq, Eq)]
pub enum ProtectionFailure {
    /// It could not be decrypted, or its signature did not verify.
    Crypto,
    /// Its name or its value is not valid percent-encoded text.
    Decoding,
    /// Neither of these.
    Unknown,
}

/// Why a request was not served.
#[derive(Clone, Debug, PartialEq, Eq)]
pub enum MiddlewareError {
    /// A segment of the cookie header holds no `=`: the segment.
    MissingPair(String),
    /// A segment of the cookie header has no name: its value.
    EmptyName(String),
    /// The processor refused the cookie of this name as it came in.
    Protection(String, ProtectionFailure),
    /// An outgoing cookie is no valid header value: what the web framework
    /// says of it.
    Render(String),
}

/// The mathematical model of a [`MiddlewareError`].
pub enum MiddlewareErrorView {
    MissingPair(Seq<char>),
    EmptyName(Seq<char>),
    Protection(Seq<char>, ProtectionFailure),
    Render(Seq<char>),
}

impl View for MiddlewareError {
    type V = MiddlewareErrorView;

    open spec fn view(&self) -> MiddlewareErrorView {
        match self {
            MiddlewareError::MissingPair(fragment) => MiddlewareErrorView::MissingPair(fragment@),
            MiddlewareError::EmptyName(value) => MiddlewareErrorView::EmptyName(value@),
            MiddlewareError::Protection(name, failure) => MiddlewareErrorView::Protection(
                name@,
                *failure,
            ),
            MiddlewareError::Render(reason) => MiddlewareErrorView::Render(reason@),
        }
    }
}

impl MiddlewareErrorView {
    /// Whether the cookie header broke the `name=value` syntax.
    pub open spec fn is_malformed_header(self) -> bool {
        self is MissingPair || self is EmptyName
    }

    /// The error in words.
    pub open spec fn message(self) -> Seq<char> {
        match self {
            MiddlewareErrorView::MissingPair(fragment) =>
                "Expected a name-value pair, but no `=` was found in `"@ + fragment + "`"@,
            MiddlewareErrorView::EmptyName(value) =>
                "The name of a cookie cannot be empty, but found an empty name with `"@ + value
                    + "` as value"@,
            MiddlewareErrorView::Protection(name, failure) => "Failed to process `"@ + name
                + "` as "@ + kind(failure) + " request cookie"@,
            MiddlewareErrorView::Render(reason) =>
                "Failed to attached cookies to outgoing response: "@ + reason,
        }
    }
}

/// What kind of cookie the processor took the refused one for.
pub open spec fn kind(failure: ProtectionFailure) -> Seq<char> {
    match failure {
        ProtectionFailure::Crypto => "an encrypted"@,
        ProtectionFailure::Decoding => "a singed"@,
        ProtectionFailure::Unknown => "an unknown"@,
    }
}

impl MiddlewareError {
    /// Whether the cookie header broke the `name=value` syntax.
    pub fn is_malformed_header(&self) -> (r: bool)
        ensures
            r == self@.is_malformed_header(),
    {
        match self {
            MiddlewareError::MissingPair(_) => true,
            MiddlewareError::EmptyName(_) => true,
            _ => false,
        }
    }

    /// The error in words.
    pub fn message(&self) -> (r: String)
        ensures
            r@ == self@.message(),
    {
        match self {
            MiddlewareError::MissingPair(fragment) => {
                String::from_str("Expected a name-value pair, but no `=` was found in `").concat(
                    fragment.as_str(),
                ).concat("`")
            },
            MiddlewareError::EmptyName(value) => {
                String::from_str(
                    "The name of a cookie cannot be empty, but found an empty name with `",
                ).concat(value.as_str()).concat("` as value")
            },
            MiddlewareError::Protection(name, failure) => {
                let t = match failure {
                    ProtectionFailure::Crypto => "an encrypted",
                    ProtectionFailure::Decoding => "a singed",
                    ProtectionFailure::Unknown => "an unknown",
                };
                String::from_str("Failed to process `").concat(name.as_str()).concat(
                    "` as ",
                ).concat(t).concat(" request cookie")
            },
            MiddlewareError::Render(reason) => {
                String::from_str("Failed to attached cookies to outgoing response: ").concat(
                    reason.as_str(),
                )
            },
        }
    }
}

/// What `Processor::process_incoming` returns for a processor, a name and a
/// value: the name and the value of the processed cookie, or why it was
/// refused. It decrypts or verifies the value where the processor holds a
/// rule for the name, and percent-decodes where the processor is set to;
/// neither depends on anything but the three.
pub uninterp spec fn processed_incoming(processor: Processor, name: Seq<char>, value: Seq<char>) -> Result<(Seq<char>, Seq<char>), ProtectionFailure>;

/// The view of what processing a cookie gave.
pub open spec fn outcome(r: Result<(String, String), ProtectionFailure>) -> Result<
    (Seq<char>, Seq<char>),
    ProtectionFailure,
> {
    match r {
        Ok(pair) => Ok((pair.0@, pair.1@)),
        Err(failure) => Err(failure),
    }
}

/// `Processor::process_incoming`: the name and the value of the processed
/// cookie, or which of its errors it gave.
#[verifier::external_body]
fn process_incoming(processor: &Processor, name: &str, value: &str) -> (r: Result<
    (String, String),
    ProtectionFailure,
>)
    ensures
        outcome(r) == processed_incoming(*processor, name@, value@),
{
    match processor.process_incoming(name, value) {
        Ok(c) => Ok((c.name().to_owned(), c.value().to_owned())),
        Err(ProcessIncomingError::Crypto(_)) => Err(ProtectionFailure::Crypto),
        Err(ProcessIncomingError::Decoding(_)) => Err(ProtectionFailure::Decoding),
        Err(_) => Err(ProtectionFailure::Unknown),
    }
}

/// What reading the segments of a cookie header leaves behind: the inbound
/// cookies, and the error that stopped the reading, if one did.
pub struct Extraction {
    pub inbound: Map<Seq<char>, Seq<Seq<char>>>,
    pub error: Option<MiddlewareErrorView>,
}

/// Reads `segments` from first to last into `inbound`. A blank segment is
/// passed over. A pair goes through the processor, and what comes back is
/// appended. The first segment that is no pair, or that the processor
/// refuses, stops the reading: what was appended before it stays.
pub open spec fn extract(
    segments: Seq<Seq<char>>,
    processor: Processor,
    inbound: Map<Seq<char>, Seq<Seq<char>>>,
) -> Extraction
    decreases segments.len(),
{
    if segments.len() == 0 {
        Extraction { inbound, error: None }
    } else {
        match classify(segments.first()) {
            SegmentView::Blank => extract(segments.drop_first(), processor, inbound),
            SegmentView::MissingPair { fragment } => Extraction {
                inbound,
                error: Some(MiddlewareErrorView::MissingPair(fragment)),
            },
            SegmentView::EmptyName { value } => Extraction {
                inbound,
                error: Some(MiddlewareErrorView::EmptyName(value)),
            },
            SegmentView::Pair { name, value } => match processed_incoming(processor, name, value) {
                Ok(pair) => extract(
                    segments.drop_first(),
                    processor,
                    appended(inbound, pair.0, pair.1),
                ),
                Err(failure) => Extraction {
                    inbound,
                    error: Some(MiddlewareErrorView::Protection(name, failure)),
                },
            },
        }
    }
}

/// The view of an error, if there is one.
pub open spec fn failure(r: Result<(), MiddlewareError>) -> Option<MiddlewareErrorView> {
    match r {
        Ok(_) => None,
        Err(e) => Some(e@),
    }
}

/// Fills the storage with the cookies of the request header, if there is
/// one: each is read, handed to the processor, and appended as the processor
/// returns it. The first segment that is malformed, or that the processor
/// refuses, ends the reading with its error.
pub fn extract_cookies(header: Option<&str>, processor: &Processor, storage: &mut Storage) -> (r:
    Result<(), MiddlewareError>)
    ensures
        final(storage)@.outbound == old(storage)@.outbound,
        header is None ==> r is Ok && final(storage)@.inbound == old(storage)@.inbound,
        header matches Some(h) ==> final(storage)@.inbound == extract(
            split(h@, ';'),
            *processor,
            old(storage)@.inbound,
        ).inbound && failure(r) == extract(split(h@, ';'), *processor, old(storage)@.inbound).error,
{
    let h = match header {
        Some(h) => h,
        None => {
            return Ok(());
        },
    };
    let pieces = segments(h);
    let ghost all = texts(pieces@);
    let ghost start = storage@.inbound;
    let mut i: usize = 0;
    assert(all.skip(0) == all);
    while i < pieces.len()
        invariant
            i <= pieces.len(),
            all == texts(pieces@),
            all == split(h@, ';'),
            header == Some(h),
            start == old(storage)@.inbound,
            storage@.outbound == old(storage)@.outbound,
            extract(all.skip(i as int), *processor, storage@.inbound) == extract(
                all,
                *processor,
                start,
            ),
        decreases pieces.len() - i,
    {
        let ghost rest = all.skip(i as int);
        assert(rest.first() == pieces[i as int]@);
        assert(rest.drop_first() == all.skip(i + 1));
        match parse_segment(pieces[i].as_str()) {
            Segment::Blank => {},
            Segment::MissingPair { fragment } => {
                return Err(MiddlewareError::MissingPair(fragment));
            },
            Segment::EmptyName { value } => {
                return Err(MiddlewareError::EmptyName(value));
            },
            Segment::Pair { name, value } => {
                match process_incoming(processor, name.as_str(), value.as_str()) {
                    Ok(pair) => {
                        storage.append(pair.0.as_str(), pair.1.as_str());
                    },
                    Err(failure) => {
                        return Err(MiddlewareError::Protection(name, failure));
                    },
                }
            },
        }
        i = i + 1;
    }
    assert(all.skip(i as int).len() == 0);
    Ok(())
}

/// Whether a header value may hold the byte `b`: a tab, or anything from
/// the space on but the delete character.
pub open spec fn valid_header_byte(b: u8) -> bool {
    b >= 32 && b != 127 || b == 9
}

/// Whether `bytes` may stand as a header value.
pub open spec fn valid_header_value(bytes: Seq<u8>) -> bool {
    forall|i: int| 0 <= i < bytes.len() ==> valid_header_byte(#[trigger] bytes[i])
}

/// The bytes of a header value: what `HeaderValue::as_bytes` returns.
pub uninterp spec fn header_bytes(value: HeaderValue) -> Seq<u8>;

/// `HeaderValue::from_str`: a header value of the bytes of `text`, if each
/// of them may stand in one; else what the error says of itself.
#[verifier::external_body]
fn header_value(text: &str) -> (r: Result<HeaderValue, String>)
    ensures
        r is Ok <==> valid_header_value(encode_utf8(text@)),
        r matches Ok(v) ==> header_bytes(v) == encode_utf8(text@),
{
    HeaderValue::from_str(text).map_err(|e| e.to_string())
}

/// Turns rendered cookies into header values, in their order. The first
/// that is no valid header value ends it with a render failure.
pub fn header_values(rendered: &Vec<String>) -> (r: Result<Vec<HeaderValue>, MiddlewareError>)
    ensures
        r is Ok <==> forall|i: int|
            0 <= i < rendered.len() ==> valid_header_value(#[trigger] encode_utf8(rendered[i]@)),
        r matches Ok(v) ==> v.len() == rendered.len() && forall|i: int|
            0 <= i < v.len() ==> header_bytes(#[trigger] v[i]) == encode_utf8(rendered[i]@),
        r matches Err(e) ==> e is Render,
{
    let mut out: Vec<HeaderValue> = Vec::new();
    let mut i: usize = 0;
    while i < rendered.len()
        invariant
            i <= rendered.len(),
            out.len() == i,
            forall|j: int| 0 <= j < i ==> valid_header_value(#[trigger] encode_utf8(rendered[j]@)),
            forall|j: int| 0 <= j < i ==> header_bytes(#[trigger] out[j]) == encode_utf8(rendered[j]@),
        decreases rendered.len() - i,
    {
        match header_value(rendered[i].as_str()) {
            Ok(v) => {
                out.push(v);
            },
            Err(reason) => {
                assert(!valid_header_value(encode_utf8(rendered[i as int]@)));
                return Err(MiddlewareError::Render(reason));
            },
        }
        i = i + 1;
    }
    Ok(out)
}

/// Takes the outbound cookies out of the storage and turns them into
/// `Set-Cookie` header values, one for each, as `processor` encodes, signs
/// or encrypts them. With no outbound cookie it gives no header value and
/// does not fail. One that is no valid header value makes it a render
/// failure, and so does an expiry at an instant that cannot be written
/// because the time zone database of the machine does not know GMT. What
/// the values say is up to the processor.
pub fn process_response_cookies(processor: &Processor, storage: &mut Storage) -> (r: Result<
    Vec<HeaderValue>,
    MiddlewareError,
>)
    ensures
        final(storage)@.inbound == old(storage)@.inbound,
        final(storage)@.outbound == no_outbound(),
        old(storage)@.outbound == no_outbound() ==> r is Ok,
        r matches Ok(v) ==> v.len() == old(storage)@.outbound.dom().len(),
        r matches Err(e) ==> e is Render,
{
    match storage.header_values(processor) {
        Some(rendered) => header_values(&rendered),
        None => Err(
            MiddlewareError::Render(
                String::from_str("Failed to fetch the 'GMT' timezone from the system database"),
            ),
        ),
    }
}

/// How far the work on a request has come.
#[derive(Clone, Copy, Debug, PartialEq, Eq)]
pub enum Phase {
    /// Nothing is read yet.
    Idle,
    /// The cookies of the request header are in the storage.
    HeaderParsed,
    /// The handler has the request and the storage.
    HandlerInvoked,
    /// The outbound cookies have been handed out as header values.
    ResponseEmitted,
    /// The request failed or was given up: nothing more is done for it.
    Aborted,
}

/// What happened to a request.
#[derive(Clone, Debug, PartialEq, Eq)]
pub enum Event {
    /// It arrived, with this cookie header or with none.
    Request(Option<String>),
    /// The handler is to be called.
    Invoke,
    /// The handler returned its response.
    Completed,
    /// The handler failed or was cancelled.
    Cancelled,
}

/// What is to be done for a request next.
#[derive(Clone, Debug)]
pub enum Action {
    /// Go on to call the handler.
    Continue,
    /// Call the handler with the request and the storage.
    InvokeHandler,
    /// Append each of these to the response as a `Set-Cookie` header.
    Emit(Vec<HeaderValue>),
    /// Answer with a server error in place of any response.
    Reject(MiddlewareError),
    /// Nothing.
    Nothing,
}

/// The view of the error that an action rejects the request with, if it
/// does.
pub open spec fn rejection(action: Action) -> Option<MiddlewareErrorView> {
    match action {
        Action::Reject(e) => Some(e@),
        _ => None,
    }
}

/// `Rc::clone`: another handle on the same value.
#[verifier::external_body]
fn share(processor: &Rc<Processor>) -> (r: Rc<Processor>)
    ensures
        r == *processor,
{
    Rc::clone(processor)
}

/// The cookie middleware: it holds the processor that all requests share.
pub struct CookieMiddleware {
    processor: Rc<Processor>,
}

/// The cookie middleware around one service.
pub struct InnerCookieMiddleware {
    processor: Rc<Processor>,
}

impl CookieMiddleware {
    /// The processor of this middleware.
    pub closed spec fn processor(&self) -> Processor {
        *self.processor
    }

    /// A middleware that processes cookies with `processor`.
    pub fn new(processor: Processor) -> (r: Self)
        ensures
            r.processor() == processor,
    {
        CookieMiddleware { processor: Rc::new(processor) }
    }

    /// The middleware around one service, with the same processor.
    pub fn new_transform(&self) -> (r: InnerCookieMiddleware)
        ensures
            r.processor() == self.processor(),
    {
        InnerCookieMiddleware { processor: share(&self.processor) }
    }
}

impl InnerCookieMiddleware {
    /// The processor of this middleware.
    pub closed spec fn processor(&self) -> Processor {
        *self.processor
    }

    /// One step of the work on a request: what `event` makes of a request in
    /// `phase`, and what is to be done next.
    ///
    /// A request that arrives with a cookie header has its cookies read into
    /// the storage, and goes on if all of them were accepted; with no
    /// header, it goes to the handler at once. The handler is called only
    /// once the header is read. Only when the handler has returned are the
    /// outbound cookies taken out of the storage and turned into header
    /// values; with no outbound cookie that gives no header value and does
    /// not fail. A handler that fails or is cancelled ends the work, and the
    /// storage is left alone. An event out of turn changes nothing.
    pub fn call(&self, phase: Phase, event: Event, storage: &mut Storage) -> (r: (Phase, Action))
        ensures
            match (phase, event) {
                (Phase::Idle, Event::Request(Some(h))) => {
                    let read = extract(split(h@, ';'), self.processor(), old(storage)@.inbound);
                    &&& final(storage)@.inbound == read.inbound
                    &&& final(storage)@.outbound == old(storage)@.outbound
                    &&& read.error is None ==> r.0 == Phase::HeaderParsed && r.1 is Continue
                    &&& read.error is Some ==> r.0 == Phase::Aborted && rejection(r.1) == read.error
                },
                (Phase::Idle, Event::Request(None)) => {
                    &&& final(storage)@ == old(storage)@
                    &&& r.0 == Phase::HandlerInvoked
                    &&& r.1 is InvokeHandler
                },
                (Phase::HeaderParsed, Event::Invoke) => {
                    &&& final(storage)@ == old(storage)@
                    &&& r.0 == Phase::HandlerInvoked
                    &&& r.1 is InvokeHandler
                },
                (Phase::HandlerInvoked, Event::Completed) => {
                    &&& final(storage)@.inbound == old(storage)@.inbound
                    &&& final(storage)@.outbound == no_outbound()
                    &&& old(storage)@.outbound == no_outbound() ==> r.1 is Emit
                    &&& match r.1 {
                        Action::Emit(values) => r.0 == Phase::ResponseEmitted && values.len()
                            == old(storage)@.outbound.dom().len(),
                        Action::Reject(e) => r.0 == Phase::Aborted && e is Render,
                        _ => false,
                    }
                },
                (Phase::HandlerInvoked, Event::Cancelled) => {
                    &&& final(storage)@ == old(storage)@
                    &&& r.0 == Phase::Aborted
                    &&& r.1 is Nothing
                },
                _ => {
                    &&& final(storage)@ == old(storage)@
                    &&& r.0 == phase
                    &&& r.1 is Nothing
                },
            },
    {
        match (phase, event) {
            (Phase::Idle, Event::Request(Some(h))) => {
                match extract_cookies(Some(h.as_str()), &*self.processor, storage) {
                    Ok(_) => (Phase::HeaderParsed, Action::Continue),
                    Err(e) => (Phase::Aborted, Action::Reject(e)),
                }
            },
            (Phase::Idle, Event::Request(None)) => (Phase::HandlerInvoked, Action::InvokeHandler),
            (Phase::HeaderParsed, Event::Invoke) => (Phase::HandlerInvoked, Action::InvokeHandler),
            (Phase::HandlerInvoked, Event::Completed) => {
                match process_response_cookies(&*self.processor, storage) {
                    Ok(values) => (Phase::ResponseEmitted, Action::Emit(values)),
                    Err(e) => (Phase::Aborted, Action::Reject(e)),
                }
            },
            (Phase::HandlerInvoked, Event::Cancelled) => (Phase::Aborted, Action::Nothing),
            (phase, _) => (phase, Action::Nothing),
        }
    }
}

} // verus!
