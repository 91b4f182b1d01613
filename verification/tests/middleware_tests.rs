use httpclient::middleware::fix_url;
use httpclient::{
    Error, Follow, FollowDecision, InMemoryBody, LogEvent, Logger, Middleware, Next,
    ProtocolError, Request, Response, Retry, RetryDecision, Transport, Url, Version,
};

fn request(url: &str) -> Request {
    Request {
        method: "GET".to_string(),
        url: Url::parse(url),
        headers: vec![],
        version: Version::Http11,
        body: InMemoryBody::Empty,
    }
}

fn response(status: u16, headers: Vec<(String, String)>) -> Response {
    Response {
        status,
        headers,
        version: Version::Http11,
        body: InMemoryBody::Empty,
    }
}

/// Replays a scripted list of outcomes, one per call, recording the URL of
/// every request it is handed.
struct Scripted {
    outcomes: Vec<Result<Response, Error>>,
    calls: usize,
    urls: Vec<String>,
}

impl Scripted {
    fn new(outcomes: Vec<Result<Response, Error>>) -> Scripted {
        Scripted { outcomes, calls: 0, urls: vec![] }
    }
}

impl Transport for Scripted {
    fn start(&mut self, request: Request) -> Result<Response, Error> {
        self.urls.push(request.url.to_string());
        let outcome = self.outcomes.remove(0);
        self.calls += 1;
        outcome
    }
}

fn transport_error() -> Error {
    Error::Protocol(ProtocolError::TransportFailed)
}

#[test]
fn test_relative_route() {
    let original = Url::parse("https://www.google.com/");
    let url = fix_url(&original, "/test");
    assert_eq!(url.to_string(), "https://www.google.com/test");
}

#[test]
fn fix_url_keeps_absolute_redirects() {
    let original = Url::parse("https://a.example/start");
    let url = fix_url(&original, "http://b.example/other?q=1");
    assert_eq!(url.to_string(), "http://b.example/other?q=1");
}

#[test]
fn url_parse_components() {
    let url = Url::parse("https://a.example/start");
    assert_eq!(url.scheme.as_deref(), Some("https"));
    assert_eq!(url.authority.as_deref(), Some("a.example"));
    assert_eq!(url.path_and_query, "/start");
    let url = Url::parse("https://a.example");
    assert_eq!(url.path_and_query, "/");
    assert_eq!(url.to_string(), "https://a.example/");
}

#[test]
fn retry_succeeds_on_fourth_attempt() {
    let stack = vec![Middleware::Retry(Retry)];
    let mut client = Scripted::new(vec![
        Err(transport_error()),
        Err(transport_error()),
        Err(transport_error()),
        Ok(response(200, vec![])),
    ]);
    let mut trace: Vec<LogEvent> = vec![];
    let next = Next { middlewares: &stack, index: 0 };
    let result = next.run(request("https://a.example/"), &mut client, &mut trace);
    assert_eq!(result.unwrap().status, 200);
    assert_eq!(client.calls, 4);
}

#[test]
fn retry_gives_up_after_four_attempts() {
    let stack = vec![Middleware::Retry(Retry)];
    let mut client = Scripted::new(vec![
        Err(transport_error()),
        Err(transport_error()),
        Err(transport_error()),
        Err(transport_error()),
        Ok(response(200, vec![])),
    ]);
    let mut trace: Vec<LogEvent> = vec![];
    let next = Next { middlewares: &stack, index: 0 };
    let result = next.run(request("https://a.example/"), &mut client, &mut trace);
    assert!(matches!(result, Err(Error::Protocol(ProtocolError::TransportFailed))));
    assert_eq!(client.calls, 4);
}

#[test]
fn retry_does_not_retry_error_statuses() {
    let stack = vec![Middleware::Retry(Retry)];
    let mut client = Scripted::new(vec![Ok(response(500, vec![]))]);
    let mut trace: Vec<LogEvent> = vec![];
    let next = Next { middlewares: &stack, index: 0 };
    let result = next.run(request("https://a.example/"), &mut client, &mut trace);
    assert_eq!(result.unwrap().status, 500);
    assert_eq!(client.calls, 1);
}

#[test]
fn follow_resolves_relative_location() {
    let stack = vec![Middleware::Follow(Follow)];
    let mut client = Scripted::new(vec![
        Ok(response(302, vec![("location".to_string(), "/next".to_string())])),
        Ok(response(200, vec![])),
    ]);
    let mut trace: Vec<LogEvent> = vec![];
    let next = Next { middlewares: &stack, index: 0 };
    let result = next.run(request("https://a.example/start"), &mut client, &mut trace);
    assert_eq!(result.unwrap().status, 200);
    assert_eq!(client.calls, 2);
    assert_eq!(client.urls[0], "https://a.example/start");
    assert_eq!(client.urls[1], "https://a.example/next");
}

#[test]
fn follow_fails_on_eleventh_redirect() {
    let stack = vec![Middleware::Follow(Follow)];
    let mut outcomes: Vec<Result<Response, Error>> = vec![];
    for _ in 0..12 {
        outcomes.push(Ok(response(302, vec![("location".to_string(), "/loop".to_string())])));
    }
    let mut client = Scripted::new(outcomes);
    let mut trace: Vec<LogEvent> = vec![];
    let next = Next { middlewares: &stack, index: 0 };
    let result = next.run(request("https://a.example/start"), &mut client, &mut trace);
    assert!(matches!(result, Err(Error::Protocol(ProtocolError::TooManyRedirects))));
    assert_eq!(client.calls, 11);
}

#[test]
fn follow_fails_without_location_header() {
    let stack = vec![Middleware::Follow(Follow)];
    let mut client = Scripted::new(vec![Ok(response(302, vec![]))]);
    let mut trace: Vec<LogEvent> = vec![];
    let next = Next { middlewares: &stack, index: 0 };
    let result = next.run(request("https://a.example/start"), &mut client, &mut trace);
    assert!(matches!(result, Err(Error::Protocol(ProtocolError::MalformedRedirect))));
}

#[test]
fn logger_promotes_error_statuses() {
    let stack = vec![Middleware::Logger(Logger)];
    let mut client = Scripted::new(vec![Ok(response(500, vec![]))]);
    let mut trace: Vec<LogEvent> = vec![];
    let next = Next { middlewares: &stack, index: 0 };
    let result = next.run(request("https://a.example/"), &mut client, &mut trace);
    match result {
        Err(Error::HttpError(res)) => assert_eq!(res.status, 500),
        _ => panic!("expected an HTTP status error"),
    }
}

#[test]
fn logger_passes_success_through() {
    let stack = vec![Middleware::Logger(Logger)];
    let mut client = Scripted::new(vec![Ok(response(204, vec![]))]);
    let mut trace: Vec<LogEvent> = vec![];
    let next = Next { middlewares: &stack, index: 0 };
    let result = next.run(request("https://a.example/"), &mut client, &mut trace);
    assert_eq!(result.unwrap().status, 204);
}

#[test]
fn two_loggers_emit_onion_ordered_events() {
    let stack = vec![Middleware::Logger(Logger), Middleware::Logger(Logger)];
    let mut client = Scripted::new(vec![Ok(response(200, vec![]))]);
    let mut trace: Vec<LogEvent> = vec![];
    let next = Next { middlewares: &stack, index: 0 };
    let result = next.run(request("https://a.example/"), &mut client, &mut trace);
    assert_eq!(result.unwrap().status, 200);
    assert_eq!(trace.len(), 4);
    assert!(matches!(&trace[0], LogEvent::Request { .. }));
    assert!(matches!(&trace[1], LogEvent::Request { .. }));
    assert!(matches!(&trace[2], LogEvent::Response { status: 200, .. }));
    assert!(matches!(&trace[3], LogEvent::Response { status: 200, .. }));
}

#[test]
fn logger_records_transport_failures() {
    let stack = vec![Middleware::Logger(Logger)];
    let mut client = Scripted::new(vec![Err(transport_error())]);
    let mut trace: Vec<LogEvent> = vec![];
    let next = Next { middlewares: &stack, index: 0 };
    let result = next.run(request("https://a.example/"), &mut client, &mut trace);
    assert!(matches!(result, Err(Error::Protocol(ProtocolError::TransportFailed))));
    assert_eq!(trace.len(), 2);
    assert!(matches!(&trace[0], LogEvent::Request { .. }));
    assert!(
        matches!(&trace[1], LogEvent::Failure { error: ProtocolError::TransportFailed, .. })
    );
}

#[test]
fn retry_replays_through_redirect_follow() {
    let stack = vec![Middleware::Retry(Retry), Middleware::Follow(Follow)];
    let mut client = Scripted::new(vec![
        Err(transport_error()),
        Ok(response(302, vec![("location".to_string(), "/next".to_string())])),
        Ok(response(200, vec![])),
    ]);
    let mut trace: Vec<LogEvent> = vec![];
    let next = Next { middlewares: &stack, index: 0 };
    let result = next.run(request("https://a.example/start"), &mut client, &mut trace);
    assert_eq!(result.unwrap().status, 200);
    assert_eq!(client.calls, 3);
    assert_eq!(client.urls[2], "https://a.example/next");
}

#[test]
fn empty_stack_delegates_to_transport() {
    let stack: Vec<Middleware> = vec![];
    let mut client = Scripted::new(vec![Ok(response(200, vec![]))]);
    let mut trace: Vec<LogEvent> = vec![];
    let next = Next { middlewares: &stack, index: 0 };
    let result = next.run(request("https://a.example/"), &mut client, &mut trace);
    assert_eq!(result.unwrap().status, 200);
    assert_eq!(client.calls, 1);
    assert!(trace.is_empty());
}

#[test]
fn retry_decision_per_outcome() {
    let delivered = Retry::decide(Ok(response(500, vec![])), 0);
    assert!(matches!(delivered, RetryDecision::Deliver(Ok(res)) if res.status == 500));
    let retried = Retry::decide(Err(transport_error()), 0);
    assert!(matches!(retried, RetryDecision::Again));
    let last = Retry::decide(Err(transport_error()), 3);
    assert!(matches!(
        last,
        RetryDecision::Deliver(Err(Error::Protocol(ProtocolError::TransportFailed)))
    ));
}

#[test]
fn follow_decision_per_outcome() {
    let original = request("https://a.example/start");
    let delivered = Follow::decide(Ok(response(200, vec![])), 10, &original);
    assert!(matches!(delivered, FollowDecision::Deliver(Ok(res)) if res.status == 200));
    let failed = Follow::decide(Err(transport_error()), 10, &original);
    assert!(matches!(
        failed,
        FollowDecision::Deliver(Err(Error::Protocol(ProtocolError::TransportFailed)))
    ));
    let exhausted = Follow::decide(Ok(response(302, vec![])), 0, &original);
    assert!(matches!(
        exhausted,
        FollowDecision::Deliver(Err(Error::Protocol(ProtocolError::TooManyRedirects)))
    ));
    let headerless = Follow::decide(Ok(response(302, vec![])), 10, &original);
    assert!(matches!(
        headerless,
        FollowDecision::Deliver(Err(Error::Protocol(ProtocolError::MalformedRedirect)))
    ));
    let hop = Follow::decide(
        Ok(response(302, vec![("location".to_string(), "/next".to_string())])),
        10,
        &original,
    );
    match hop {
        FollowDecision::Redirect(req) => {
            assert_eq!(req.url.to_string(), "https://a.example/next");
            assert_eq!(req.method, "GET");
        },
        _ => panic!("expected a redirect"),
    }
}

#[test]
fn logger_conclusion_per_outcome() {
    let reraised = Logger::conclude(Err(transport_error()));
    assert!(matches!(reraised, Err(Error::Protocol(ProtocolError::TransportFailed))));
    let passed = Logger::conclude(Ok(response(200, vec![])));
    assert!(matches!(passed, Ok(res) if res.status == 200));
    let promoted = Logger::conclude(Ok(response(500, vec![])));
    assert!(matches!(promoted, Err(Error::HttpError(res)) if res.status == 500));
    let unwrapped = Logger::conclude(Err(Error::HttpError(response(204, vec![]))));
    assert!(matches!(unwrapped, Ok(res) if res.status == 204));
}

#[test]
fn relative_target_with_embedded_url_stays_relative() {
    let original = Url::parse("https://a.example/start");
    let url = fix_url(&original, "/a?u=https://x");
    assert_eq!(url.to_string(), "https://a.example/a?u=https://x");
    let parsed = Url::parse("/a?u=https://x");
    assert!(parsed.scheme.is_none());
    assert!(parsed.authority.is_none());
    assert_eq!(parsed.path_and_query, "/a?u=https://x");
}
