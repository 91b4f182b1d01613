//! Requests, responses and the error taxonomy of the pipeline.
//!
//! Both message types are plain values: a middleware owns its working copy
//! and mutation happens only by producing a new value.  Header collections
//! keep insertion order and allow repeated keys; keys are stored in their
//! normalized (lower-case) form, as the wire library normalizes them.

use vstd::prelude::*;
use vstd::string::StringExecFns;

use crate::body::{BodyView, InMemoryBody};
use crate::url::{Url, UrlView};

verus! {

/// The protocol version of a request or response.
#[derive(Clone, Copy, PartialEq, Eq, Structural, Debug)]
pub enum Version {
    Http09,
    Http10,
    Http11,
    Http2,
    Http3,
}

/// An ordered header collection: key/value pairs, repeated keys allowed,
/// insertion order preserved for serialization.
pub type Headers = Vec<(String, String)>;

/// The model of a header collection.
pub open spec fn headers_view(h: Seq<(String, String)>) -> Seq<(Seq<char>, Seq<char>)> {
    h.map_values(|p: (String, String)| (p.0@, p.1@))
}

/// The value of the first header whose key is `name`, if any.
pub open spec fn header_lookup(h: Seq<(Seq<char>, Seq<char>)>, name: Seq<char>) -> Option<
    Seq<char>,
>
    decreases h.len(),
{
    if h.len() == 0 {
        None
    } else if h[0].0 == name {
        Some(h[0].1)
    } else {
        header_lookup(h.drop_first(), name)
    }
}

/// The first header of `headers` whose key equals `name`.
pub fn header_get<'a>(headers: &'a Headers, name: &str) -> (r: Option<&'a String>)
    ensures
        match r {
            Some(v) => header_lookup(headers_view(headers@), name@) == Some(v@),
            None => header_lookup(headers_view(headers@), name@) is None,
        },
{
    let key = String::from_str(name);
    let ghost hv = headers_view(headers@);
    proof {
        assert(hv.subrange(0, hv.len() as int) =~= hv);
    }
    let mut i: usize = 0;
    while i < headers.len()
        invariant
            hv == headers_view(headers@),
            hv.len() == headers@.len(),
            i <= headers@.len(),
            key@ == name@,
            header_lookup(hv, name@) == header_lookup(hv.subrange(i as int, hv.len() as int), name@),
        decreases headers@.len() - i,
    {
        proof {
            assert(hv[i as int] == (headers@[i as int].0@, headers@[i as int].1@));
            assert(hv.subrange(i as int, hv.len() as int)[0] == hv[i as int]);
        }
        let pair = &headers[i];
        if pair.0 == key {
            return Some(&headers[i].1);
        }
        proof {
            assert(hv.subrange(i as int, hv.len() as int).drop_first() =~= hv.subrange(
                i + 1,
                hv.len() as int,
            ));
        }
        i += 1;
    }
    proof {
        assert(hv.subrange(i as int, hv.len() as int).len() == 0);
    }
    None
}

/// Duplicate a header collection; the copy has the same model.
pub fn clone_headers(headers: &Headers) -> (r: Headers)
    ensures
        headers_view(r@) == headers_view(headers@),
{
    let mut out: Headers = Vec::new();
    let mut i: usize = 0;
    while i < headers.len()
        invariant
            i <= headers@.len(),
            out@.len() == i,
            forall|j: int|
                0 <= j < i ==> #[trigger] out@[j].0@ == headers@[j].0@ && out@[j].1@
                    == headers@[j].1@,
        decreases headers@.len() - i,
    {
        let pair = &headers[i];
        out.push((pair.0.clone(), pair.1.clone()));
        i += 1;
    }
    proof {
        assert(headers_view(out@) =~= headers_view(headers@));
    }
    out
}

/// A transport- or protocol-level failure: these propagate unchanged by
/// default, and only the retry middleware may suppress one by retrying.
#[derive(Clone, Copy, PartialEq, Eq, Structural, Debug)]
pub enum ProtocolError {
    /// The transport client failed to produce a response.
    TransportFailed,
    /// A redirect chain exceeded the allowed number of hops.
    TooManyRedirects,
    /// A redirection response without a usable target location.
    MalformedRedirect,
}

/// An HTTP request: method, target URL, headers, protocol version and a
/// fully-materialized body.
#[derive(Debug)]
pub struct Request {
    pub method: String,
    pub url: Url,
    pub headers: Headers,
    pub version: Version,
    pub body: InMemoryBody,
}

/// The mathematical model of a [`Request`].
#[verifier::ext_equal]
pub struct RequestView {
    pub method: Seq<char>,
    pub url: UrlView,
    pub headers: Seq<(Seq<char>, Seq<char>)>,
    pub version: Version,
    pub body: BodyView,
}

impl View for Request {
    type V = RequestView;

    open spec fn view(&self) -> RequestView {
        RequestView {
            method: self.method@,
            url: self.url@,
            headers: headers_view(self.headers@),
            version: self.version,
            body: self.body@,
        }
    }
}

impl Request {
    /// The same request aimed at a different URL; everything else is kept.
    pub fn set_url(self, url: Url) -> (r: Request)
        ensures
            r@ == (RequestView { url: url@, ..self@ }),
    {
        let mut r = self;
        r.url = url;
        r
    }
}

impl Clone for Request {
    /// Requests are duplicated for replay: the copy has the same model.
    fn clone(&self) -> (r: Self)
        ensures
            r@ == self@,
    {
        let r = Request {
            method: self.method.clone(),
            url: self.url.clone(),
            headers: clone_headers(&self.headers),
            version: self.version,
            body: self.body.clone(),
        };
        proof {
            assert(r@ =~= self@);
        }
        r
    }
}

/// An HTTP response: status code, headers, protocol version and a
/// fully-materialized body.
#[derive(Debug)]
pub struct Response {
    pub status: u16,
    pub headers: Headers,
    pub version: Version,
    pub body: InMemoryBody,
}

/// The mathematical model of a [`Response`].
#[verifier::ext_equal]
pub struct ResponseView {
    pub status: u16,
    pub headers: Seq<(Seq<char>, Seq<char>)>,
    pub version: Version,
    pub body: BodyView,
}

impl View for Response {
    type V = ResponseView;

    open spec fn view(&self) -> ResponseView {
        ResponseView {
            status: self.status,
            headers: headers_view(self.headers@),
            version: self.version,
            body: self.body@,
        }
    }
}

/// A success status: the 2xx class.
pub open spec fn is_success(status: u16) -> bool {
    200 <= status < 300
}

/// A redirection status: the 3xx class.
pub open spec fn is_redirection(status: u16) -> bool {
    300 <= status < 400
}

/// The two error kinds the pipeline distinguishes: protocol failures, and
/// non-success responses promoted to errors.
#[derive(Debug)]
pub enum Error {
    /// A transport- or protocol-level failure.
    Protocol(ProtocolError),
    /// A response whose status was explicitly promoted to an error.
    HttpError(Response),
}

impl Response {
    /// Promote a non-success response into an HTTP status error; a success
    /// response is returned unchanged.  A non-success response is not an
    /// error by itself: it becomes one only through this explicit step.
    pub fn error_for_status(self) -> (r: Result<Response, Error>)
        ensures
            is_success(self@.status) ==> (r matches Ok(res) && res@ == self@),
            !is_success(self@.status) ==> (r matches Err(Error::HttpError(res)) && res@ == self@),
    {
        if 200 <= self.status && self.status < 300 {
            Ok(self)
        } else {
            Err(Error::HttpError(self))
        }
    }
}

impl Clone for Response {
    /// Responses are duplicated for observation: the copy has the same model.
    fn clone(&self) -> (r: Self)
        ensures
            r@ == self@,
    {
        let r = Response {
            status: self.status,
            headers: clone_headers(&self.headers),
            version: self.version,
            body: self.body.clone(),
        };
        proof {
            assert(r@ =~= self@);
        }
        r
    }
}

} // verus!
