//! The middleware pipeline: a chain driver over an ordered middleware
//! sequence, terminating at an injected transport client, and the three
//! standard middlewares (retry, redirect-following, logging).
//!
//! Ordering is strict onion semantics: for middlewares `[A, B]`, A's
//! pre-delegation work runs before B's, and B's post-delegation work runs
//! before A's on the way back, because each middleware wraps the result of
//! its nested [`Next::run`] call.

use vstd::prelude::*;
use vstd::string::StringExecFns;

use crate::body::{BodyView, InMemoryBody};
use crate::message::{
    headers_view, header_get, header_lookup, is_redirection, is_success, Error, Headers,
    ProtocolError, Request, RequestView, Response, ResponseView, Version,
};
use crate::url::{url_of, url_text, Url, UrlView};

verus! {

/// The transport client: the external collaborator performing the actual
/// network exchange, terminal to every middleware chain.  Nothing is
/// promised about its outcomes.
pub trait Transport {
    /// Perform the request and produce a response or a transport failure.
    fn start(&mut self, request: Request) -> Result<Response, Error>;
}

/// One record of the observation log that the logging middleware emits.
#[derive(Debug)]
pub enum LogEvent {
    /// A request summary, recorded before delegation.
    Request { method: String, url: String, version: Version, headers: String, body: InMemoryBody },
    /// A response summary, recorded after delegation.
    Response { url: String, version: Version, status: u16, headers: String, body: InMemoryBody },
    /// A protocol failure, recorded after delegation.
    Failure { url: String, error: ProtocolError },
}

/// The mathematical model of a [`LogEvent`].
#[verifier::ext_equal]
pub enum LogEventView {
    Request { method: Seq<char>, url: Seq<char>, version: Version, headers: Seq<char>, body: BodyView },
    Response { url: Seq<char>, version: Version, status: u16, headers: Seq<char>, body: BodyView },
    Failure { url: Seq<char>, error: ProtocolError },
}

impl View for LogEvent {
    type V = LogEventView;

    open spec fn view(&self) -> LogEventView {
        match self {
            LogEvent::Request { method, url, version, headers, body } => LogEventView::Request {
                method: method@,
                url: url@,
                version: *version,
                headers: headers@,
                body: body@,
            },
            LogEvent::Response { url, version, status, headers, body } => LogEventView::Response {
                url: url@,
                version: *version,
                status: *status,
                headers: headers@,
                body: body@,
            },
            LogEvent::Failure { url, error } => LogEventView::Failure {
                url: url@,
                error: *error,
            },
        }
    }
}

/// The model of an observation log.
pub open spec fn events_view(s: Seq<LogEvent>) -> Seq<LogEventView> {
    s.map_values(|e: LogEvent| e@)
}

/// One line of a header dump: `Key: Value`.
pub open spec fn header_line(p: (Seq<char>, Seq<char>)) -> Seq<char> {
    p.0 + ": "@ + p.1
}

/// A header dump: one `Key: Value` line per header in insertion order,
/// joined by line feeds.
pub open spec fn headers_text(h: Seq<(Seq<char>, Seq<char>)>) -> Seq<char>
    decreases h.len(),
{
    if h.len() == 0 {
        Seq::empty()
    } else if h.len() == 1 {
        header_line(h.last())
    } else {
        headers_text(h.drop_last()) + "\n"@ + header_line(h.last())
    }
}

/// Render a header collection as one `Key: Value` line per header, in
/// insertion order, joined by line feeds.
pub fn headers_to_string(headers: &Headers) -> (r: String)
    ensures
        r@ == headers_text(headers_view(headers@)),
{
    let ghost hv = headers_view(headers@);
    let mut out = String::new();
    let mut i: usize = 0;
    while i < headers.len()
        invariant
            hv == headers_view(headers@),
            hv.len() == headers@.len(),
            i <= headers@.len(),
            out@ == headers_text(hv.subrange(0, i as int)),
        decreases headers@.len() - i,
    {
        if i > 0 {
            out.append("\n");
        }
        let pair = &headers[i];
        out.append(pair.0.as_str());
        out.append(": ");
        out.append(pair.1.as_str());
        i += 1;
        proof {
            let prefix = hv.subrange(0, i as int);
            assert(hv[i - 1] == (headers@[i - 1].0@, headers@[i - 1].1@));
            assert(prefix.drop_last() =~= hv.subrange(0, i - 1));
            assert(prefix.last() == hv[i - 1]);
            assert(out@ =~= headers_text(prefix));
        }
    }
    proof {
        assert(hv.subrange(0, hv.len() as int) =~= hv);
    }
    out
}

/// Resolve a redirect target against the original request URL by path
/// substitution: a target without a scheme or an authority of its own
/// borrows the original's.
pub open spec fn fixed_url(original: UrlView, redirect: Seq<char>) -> UrlView {
    let t = url_of(redirect);
    UrlView {
        scheme: if t.scheme is Some {
            t.scheme
        } else {
            original.scheme
        },
        authority: if t.authority is Some {
            t.authority
        } else {
            original.authority
        },
        path_and_query: t.path_and_query,
    }
}

/// Given an original URL, resolve the redirect target sent by the server.
pub fn fix_url(original: &Url, redirect_url: &str) -> (r: Url)
    ensures
        r@ == fixed_url(original@, redirect_url@),
{
    let mut r = Url::parse(redirect_url);
    if r.authority.is_none() {
        r.authority = match &original.authority {
            Some(a) => Some(a.clone()),
            None => None,
        };
    }
    if r.scheme.is_none() {
        r.scheme = match &original.scheme {
            Some(s) => Some(s.clone()),
            None => None,
        };
    }
    proof {
        assert(r@ =~= fixed_url(original@, redirect_url@));
    }
    r
}

/// Retry a request up to three times after the initial attempt.
#[derive(Debug)]
pub struct Retry;

/// What the retry policy does with the outcome of one attempt.
#[derive(Debug)]
pub enum RetryDecision {
    /// Hand this outcome to the caller.
    Deliver(Result<Response, Error>),
    /// The attempt failed at the transport level and attempts remain.
    Again,
}

/// Log request and response summaries around the call and promote
/// non-success responses to HTTP status errors.
#[derive(Debug)]
pub struct Logger;

/// Follow redirection responses, up to ten hops.
#[derive(Debug)]
pub struct Follow;

/// One configured middleware of the chain: dynamic dispatch is modeled as a
/// closed set of variants, one per concrete middleware.
#[derive(Debug)]
pub enum Middleware {
    Retry(Retry),
    Logger(Logger),
    Follow(Follow),
}

impl Middleware {
    /// The one capability of a middleware: handle the request, delegating
    /// to the continuation as it sees fit.  Dispatches to the concrete
    /// middleware this value stands for.
    pub fn handle<T: Transport>(
        &self,
        request: Request,
        next: Next<'_>,
        client: &mut T,
        trace: &mut Vec<LogEvent>,
    ) -> (r: Result<Response, Error>)
        ensures
            old(trace)@.is_prefix_of(final(trace)@),
            (self is Logger && all_loggers(next.middlewares@, next.index as int) && next.index
                <= next.middlewares@.len()) ==> events_view(final(trace)@) == events_view(
                old(trace)@,
            ) + onion_trace(request@, r, next.middlewares@.len() - next.index + 1),
        decreases next.middlewares@.len() - next.index, 2int,
    {
        match self {
            Middleware::Retry(mw) => mw.handle(request, next, client, trace),
            Middleware::Logger(mw) => mw.handle(request, next, client, trace),
            Middleware::Follow(mw) => mw.handle(request, next, client, trace),
        }
    }
}

/// An immutable view over the suffix of the middleware sequence that is
/// still to run: the sequence itself is never mutated, only the cursor
/// advances.
pub struct Next<'a> {
    pub middlewares: &'a Vec<Middleware>,
    pub index: usize,
}

impl<'a> Clone for Next<'a> {
    fn clone(&self) -> (r: Self)
        ensures
            r == *self,
    {
        Next { middlewares: self.middlewares, index: self.index }
    }
}

impl<'a> Copy for Next<'a> {

}

/// Whether every middleware of the suffix starting at `index` is a logger.
pub open spec fn all_loggers(stack: Seq<Middleware>, index: int) -> bool {
    forall|k: int| index <= k < stack.len() ==> stack[k] is Logger
}

/// The request summary a logger records before delegating.
pub open spec fn request_event(r: RequestView) -> LogEventView {
    LogEventView::Request {
        method: r.method,
        url: url_text(r.url),
        version: r.version,
        headers: headers_text(r.headers),
        body: r.body,
    }
}

/// The response summary a logger records after delegating.
pub open spec fn response_event(url: Seq<char>, res: ResponseView) -> LogEventView {
    LogEventView::Response {
        url: url,
        version: res.version,
        status: res.status,
        headers: headers_text(res.headers),
        body: res.body,
    }
}

/// What a logger records after delegation, for each possible outcome.
pub open spec fn outcome_event(url: Seq<char>, r: Result<Response, Error>) -> LogEventView {
    match r {
        Ok(res) => response_event(url, res@),
        Err(Error::HttpError(res)) => response_event(url, res@),
        Err(Error::Protocol(e)) => LogEventView::Failure { url: url, error: e },
    }
}

/// The observation log that a chain of `n` loggers around the terminal
/// transport step emits: `n` request summaries going in, outer to inner,
/// then `n` outcome records coming back, inner to outer.
pub open spec fn onion_trace(req: RequestView, r: Result<Response, Error>, n: int) -> Seq<
    LogEventView,
> {
    let depth = if n >= 0 { n as nat } else { 0 };
    Seq::new(depth, |i| request_event(req)) + Seq::new(
        depth,
        |i| outcome_event(url_text(req.url), r),
    )
}

proof fn lemma_prefix_trans(a: Seq<LogEvent>, b: Seq<LogEvent>, c: Seq<LogEvent>)
    requires
        a.is_prefix_of(b),
        b.is_prefix_of(c),
    ensures
        a.is_prefix_of(c),
{
    assert(a =~= c.subrange(0, a.len() as int));
}

proof fn lemma_prefix_push(s: Seq<LogEvent>, e: LogEvent)
    ensures
        s.is_prefix_of(s.push(e)),
{
    assert(s =~= s.push(e).subrange(0, s.len() as int));
}

proof fn lemma_events_view_push(s: Seq<LogEvent>, e: LogEvent)
    ensures
        events_view(s.push(e)) == events_view(s).push(e@),
{
    assert(events_view(s.push(e)) =~= events_view(s).push(e@));
}

/// The bookkeeping step of the logging middleware's onion-ordering proof:
/// one request record in front of an `n`-deep all-logger trace and one
/// outcome record after it form the `n + 1`-deep all-logger trace.
proof fn lemma_onion_step(
    e0: Seq<LogEventView>,
    req: RequestView,
    inner: Result<Response, Error>,
    outer: Result<Response, Error>,
    n: int,
)
    requires
        n >= 0,
        outcome_event(url_text(req.url), outer) == outcome_event(url_text(req.url), inner),
    ensures
        e0.push(request_event(req)) + onion_trace(req, inner, n) + seq![
            outcome_event(url_text(req.url), outer),
        ] == e0 + onion_trace(req, outer, n + 1),
{
    assert(e0.push(request_event(req)) + onion_trace(req, inner, n) + seq![
        outcome_event(url_text(req.url), outer),
    ] =~= e0 + onion_trace(req, outer, n + 1));
}

impl<'a> Next<'a> {
    /// The sole execution primitive of the chain: when middlewares remain,
    /// hand the request to the first of them together with a continuation
    /// over the rest; when none remain, delegate to the transport client.
    /// The driver itself touches no state: the observation log grows only
    /// through the logging middleware, and when the remaining suffix is all
    /// loggers the log gains exactly the onion-ordered records.
    pub fn run<T: Transport>(
        self,
        request: Request,
        client: &mut T,
        trace: &mut Vec<LogEvent>,
    ) -> (r: Result<Response, Error>)
        ensures
            old(trace)@.is_prefix_of(final(trace)@),
            all_loggers(self.middlewares@, self.index as int) ==> events_view(final(trace)@)
                == events_view(old(trace)@) + onion_trace(
                request@,
                r,
                self.middlewares@.len() - self.index,
            ),
        decreases self.middlewares@.len() - self.index, 0int,
    {
        if self.index < self.middlewares.len() {
            let next = Next { middlewares: self.middlewares, index: self.index + 1 };
            let m = &self.middlewares[self.index];
            let r = m.handle(request, next, client, trace);
            proof {
                if all_loggers(self.middlewares@, self.index as int) {
                    assert(self.middlewares@[self.index as int] is Logger);
                    assert(self.middlewares@.len() - next.index + 1 == self.middlewares@.len()
                        - self.index);
                }
            }
            r
        } else {
            let r = client.start(request);
            proof {
                assert(events_view(trace@) =~= events_view(old(trace)@) + onion_trace(
                    request@,
                    r,
                    self.middlewares@.len() - self.index,
                ));
                assert(old(trace)@.is_prefix_of(trace@));
            }
            r
        }
    }
}

impl Retry {
    /// The retry policy, one attempt at a time: any response, error status
    /// or not, is delivered at once; a transport-level failure is delivered
    /// only when it is the fourth outcome in a row, and retried otherwise.
    pub fn decide(outcome: Result<Response, Error>, attempt: usize) -> (r: RetryDecision)
        ensures
            outcome matches Ok(_) ==> r == RetryDecision::Deliver(outcome),
            (outcome matches Err(_) && attempt >= 3) ==> r == RetryDecision::Deliver(outcome),
            (outcome matches Err(_) && attempt < 3) ==> r is Again,
    {
        match outcome {
            Ok(response) => RetryDecision::Deliver(Ok(response)),
            Err(err) => if attempt >= 3 {
                RetryDecision::Deliver(Err(err))
            } else {
                RetryDecision::Again
            },
        }
    }

    /// Delegate up to four times in all: only transport-level failures
    /// trigger another attempt; any response, error status or not, is
    /// returned at once; after the fourth failure the last error
    /// propagates unchanged.  The request is already materialized, so each
    /// attempt replays an identical copy.
    pub fn handle<T: Transport>(
        &self,
        request: Request,
        next: Next<'_>,
        client: &mut T,
        trace: &mut Vec<LogEvent>,
    ) -> (r: Result<Response, Error>)
        ensures
            old(trace)@.is_prefix_of(final(trace)@),
        decreases next.middlewares@.len() - next.index, 1int,
    {
        let mut attempt: usize = 0;
        loop
            invariant
                attempt <= 3,
                old(trace)@.is_prefix_of(trace@),
            decreases 3 - attempt,
        {
            let ghost pre = trace@;
            let result = next.run(request.clone(), client, trace);
            proof {
                lemma_prefix_trans(old(trace)@, pre, trace@);
            }
            match Retry::decide(result, attempt) {
                RetryDecision::Deliver(outcome) => {
                    return outcome;
                },
                RetryDecision::Again => {
                    attempt += 1;
                },
            }
        }
    }
}

/// What the redirect-follower does with the outcome of one delegation.
#[derive(Debug)]
pub enum FollowDecision {
    /// Hand this outcome to the caller.
    Deliver(Result<Response, Error>),
    /// The response redirects and hops remain: re-enter with this request.
    Redirect(Request),
}

impl Follow {
    /// The redirect policy, one delegation at a time: a delegation error
    /// and any non-redirection response are delivered unchanged; a
    /// redirection response fails with too-many-redirects when no hops
    /// remain, fails with malformed-redirect when it carries no `location`
    /// header, and otherwise yields the original request re-aimed at the
    /// resolved target.
    pub fn decide(outcome: Result<Response, Error>, hops_left: usize, original: &Request) -> (r:
        FollowDecision)
        ensures
            outcome matches Err(_) ==> r == FollowDecision::Deliver(outcome),
            (outcome matches Ok(res) && !is_redirection(res@.status)) ==> r
                == FollowDecision::Deliver(outcome),
            (outcome matches Ok(res) && is_redirection(res@.status) && hops_left == 0) ==> r
                == FollowDecision::Deliver(
                Err::<Response, Error>(Error::Protocol(ProtocolError::TooManyRedirects)),
            ),
            (outcome matches Ok(res) && is_redirection(res@.status) && hops_left > 0
                && header_lookup(res@.headers, "location"@) is None) ==> r
                == FollowDecision::Deliver(
                Err::<Response, Error>(Error::Protocol(ProtocolError::MalformedRedirect)),
            ),
            outcome matches Ok(res) ==> ((is_redirection(res@.status) && hops_left > 0) ==> (
            header_lookup(res@.headers, "location"@) matches Some(l) ==> (r
                matches FollowDecision::Redirect(req) && req@ == (RequestView {
                url: fixed_url(original@.url, l),
                ..original@
            })))),
    {
        match outcome {
            Ok(res) => {
                if 300 <= res.status && res.status < 400 {
                    if hops_left == 0 {
                        FollowDecision::Deliver(
                            Err(Error::Protocol(ProtocolError::TooManyRedirects)),
                        )
                    } else {
                        match header_get(&res.headers, "location") {
                            Some(l) => {
                                let location = l.clone();
                                let url = fix_url(&original.url, location.as_str());
                                FollowDecision::Redirect(original.clone().set_url(url))
                            },
                            None => FollowDecision::Deliver(
                                Err(Error::Protocol(ProtocolError::MalformedRedirect)),
                            ),
                        }
                    }
                } else {
                    FollowDecision::Deliver(Ok(res))
                }
            },
            Err(err) => FollowDecision::Deliver(Err(err)),
        }
    }

    /// Follow redirection responses: resolve each `Location` target against
    /// the original request's URL by path substitution and re-enter the
    /// chain from this position with an otherwise identical request.  The
    /// step from one delegated outcome to the next action is
    /// [`Follow::decide`]: at most ten hops are followed, the eleventh
    /// redirect fails with a too-many-redirects protocol error, and a
    /// redirection response without a `Location` header fails with a
    /// malformed-redirect protocol error.
    pub fn handle<T: Transport>(
        &self,
        request: Request,
        next: Next<'_>,
        client: &mut T,
        trace: &mut Vec<LogEvent>,
    ) -> (r: Result<Response, Error>)
        ensures
            old(trace)@.is_prefix_of(final(trace)@),
            r matches Ok(res) ==> !is_redirection(res@.status),
        decreases next.middlewares@.len() - next.index, 1int,
    {
        let original = request.clone();
        let ghost pre0 = trace@;
        let mut outcome = next.run(request, client, trace);
        let mut hops_left: usize = 10;
        loop
            invariant
                old(trace)@.is_prefix_of(trace@),
                hops_left <= 10,
            decreases hops_left,
        {
            match Follow::decide(outcome, hops_left, &original) {
                FollowDecision::Deliver(result) => {
                    return result;
                },
                FollowDecision::Redirect(redirected) => {
                    proof {
                        assert(hops_left > 0);
                    }
                    hops_left -= 1;
                    let ghost pre = trace@;
                    outcome = next.run(redirected, client, trace);
                    proof {
                        lemma_prefix_trans(old(trace)@, pre, trace@);
                    }
                },
            }
        }
    }
}

/// Whether `r` is the status promotion of a response with model `res`: the
/// response unchanged when its status is a success, an HTTP status error
/// wrapping it otherwise.
pub open spec fn promoted(res: ResponseView, r: Result<Response, Error>) -> bool {
    if is_success(res.status) {
        r matches Ok(out) && out@ == res
    } else {
        r matches Err(Error::HttpError(out)) && out@ == res
    }
}

impl Logger {
    /// The three-way branch on the delegated outcome: a transport-level
    /// failure is re-raised unchanged, never converted or suppressed, and a
    /// response, whether it arrived bare or already wrapped in an HTTP
    /// status error, is promoted through [`Response::error_for_status`].
    pub fn conclude(outcome: Result<Response, Error>) -> (r: Result<Response, Error>)
        ensures
            outcome matches Err(Error::Protocol(e)) ==> r == Err::<Response, Error>(
                Error::Protocol(e),
            ),
            outcome matches Ok(res) ==> promoted(res@, r),
            outcome matches Err(Error::HttpError(res)) ==> promoted(res@, r),
    {
        match outcome {
            Ok(res) => res.error_for_status(),
            Err(Error::HttpError(res)) => res.error_for_status(),
            Err(Error::Protocol(e)) => Err(Error::Protocol(e)),
        }
    }

    /// Record a request summary, delegate exactly once, record the outcome,
    /// and conclude through [`Logger::conclude`]: a transport failure is
    /// re-raised unchanged, a response is promoted by status.  Logging
    /// never alters the data that flows through.
    pub fn handle<T: Transport>(
        &self,
        request: Request,
        next: Next<'_>,
        client: &mut T,
        trace: &mut Vec<LogEvent>,
    ) -> (r: Result<Response, Error>)
        ensures
            old(trace)@.is_prefix_of(final(trace)@),
            r matches Ok(res) ==> is_success(res@.status),
            r matches Err(Error::HttpError(res)) ==> !is_success(res@.status),
            (all_loggers(next.middlewares@, next.index as int) && next.index
                <= next.middlewares@.len()) ==> events_view(final(trace)@) == events_view(
                old(trace)@,
            ) + onion_trace(request@, r, next.middlewares@.len() - next.index + 1),
        decreases next.middlewares@.len() - next.index, 1int,
    {
        let ghost req_view = request@;
        let ghost trace0 = trace@;
        let ghost u = url_text(req_view.url);
        let url = request.url.to_string();
        let req_event = LogEvent::Request {
            method: request.method.clone(),
            url: url.clone(),
            version: request.version,
            headers: headers_to_string(&request.headers),
            body: request.body.clone(),
        };
        proof {
            assert(req_event@ == request_event(req_view));
            lemma_prefix_push(trace0, req_event);
            lemma_events_view_push(trace0, req_event);
        }
        trace.push(req_event);
        let ghost trace1 = trace@;
        let result = next.run(request, client, trace);
        let ghost g_result = result;
        let ghost trace2 = trace@;
        proof {
            lemma_prefix_trans(trace0, trace1, trace2);
        }
        let ghost n = next.middlewares@.len() - next.index;
        let record = match &result {
            Err(Error::Protocol(e)) => LogEvent::Failure { url, error: *e },
            Ok(res) => LogEvent::Response {
                url,
                version: res.version,
                status: res.status,
                headers: headers_to_string(&res.headers),
                body: res.body.clone(),
            },
            Err(Error::HttpError(res)) => LogEvent::Response {
                url,
                version: res.version,
                status: res.status,
                headers: headers_to_string(&res.headers),
                body: res.body.clone(),
            },
        };
        proof {
            assert(record@ == outcome_event(u, g_result));
            lemma_prefix_push(trace2, record);
            lemma_events_view_push(trace2, record);
        }
        trace.push(record);
        let out = Logger::conclude(result);
        proof {
            lemma_prefix_trans(trace0, trace2, trace@);
            assert(outcome_event(u, out) == outcome_event(u, g_result));
            if all_loggers(next.middlewares@, next.index as int) && next.index
                <= next.middlewares@.len() {
                logger_trace_chain(trace0, trace1, trace2, trace@, req_view, g_result, out, n);
            }
        }
        out
    }
}

/// Glue for the logging middleware's onion-ordering proof: rewrites the
/// concrete log, built by three pushes around the inner trace, into the
/// one-deeper onion trace.
proof fn logger_trace_chain(
    trace0: Seq<LogEvent>,
    trace1: Seq<LogEvent>,
    trace2: Seq<LogEvent>,
    trace3: Seq<LogEvent>,
    req: RequestView,
    inner: Result<Response, Error>,
    outer: Result<Response, Error>,
    n: int,
)
    requires
        n >= 0,
        events_view(trace1) == events_view(trace0).push(request_event(req)),
        events_view(trace2) == events_view(trace1) + onion_trace(req, inner, n),
        events_view(trace3) == events_view(trace2).push(outcome_event(url_text(req.url), outer)),
        outcome_event(url_text(req.url), outer) == outcome_event(url_text(req.url), inner),
    ensures
        events_view(trace3) == events_view(trace0) + onion_trace(req, outer, n + 1),
{
    let e0 = events_view(trace0);
    let out_ev = outcome_event(url_text(req.url), outer);
    assert(events_view(trace3) =~= e0.push(request_event(req)) + onion_trace(req, inner, n)
        + seq![out_ev]);
    lemma_onion_step(e0, req, inner, outer, n);
}

} // verus!
