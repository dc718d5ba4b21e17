//! The service loop, the builder, and the rate limiter.

use acril_http::http_server::Server;
use acril_http::rate_limit::{limit_response, Rate, RateDecision, RateLimitLayer, RateLimitService};
use acril_http::request::Request;
use acril_http::response::{Body, Response};
use acril_http::server::{Duplex, ServerError};
use acril_http::service::{
    Builder, Handler, HttpContext, Identity, Layer, ResponseError, Service,
};

#[derive(Debug, PartialEq)]
struct AppError(u16);

impl ResponseError for AppError {
    fn status_code(&self) -> u16 {
        self.0
    }
}

/// Echoes the request body; fails on the path `/fail`; asks the loop to
/// stop on the path `/stop`.
struct Root {
    started: bool,
    stopped: bool,
}

impl Service for Root {
    type Context = HttpContext<Root>;
    type Error = AppError;

    fn started(&mut self, _cx: &mut Self::Context) -> Result<(), AppError> {
        self.started = true;
        Ok(())
    }

    fn stopping(&mut self, _cx: &mut Self::Context) -> Result<(), AppError> {
        self.stopped = true;
        Ok(())
    }
}

impl Handler<Request> for Root {
    type Response = Response;

    fn call(&mut self, request: Request, cx: &mut Self::Context) -> Result<Response, AppError> {
        if request.target == b"/fail" {
            return Err(AppError(418));
        }
        if request.target == b"/stop" {
            cx.fatal(AppError(503));
        }
        let mut res = Response::new(200);
        res.set_body(Body::fixed(request.body));
        Ok(res)
    }
}

#[test]
fn run_serves_every_request_until_the_stream_closes() {
    let mut bytes = Vec::new();
    bytes.extend_from_slice(b"POST /a HTTP/1.1\r\nContent-Length: 2\r\n\r\nhi");
    bytes.extend_from_slice(b"POST /b HTTP/1.1\r\nContent-Length: 3\r\n\r\nbye");
    let mut server = Server::new(Root { started: false, stopped: false }, Duplex::new(bytes, true));
    let r = server.run();
    assert!(r.is_ok());
    assert!(server.root.0.started);
    assert!(server.root.0.stopped);
    let out = String::from_utf8(server.server.io.output.clone()).unwrap();
    assert_eq!(out.matches("HTTP/1.1 200 OK").count(), 2);
    assert!(out.ends_with("bye"));
}

#[test]
fn handler_errors_become_responses_in_the_loop() {
    let bytes = b"GET /fail HTTP/1.1\r\nHost: x\r\n\r\n".to_vec();
    let mut server = Server::new(Root { started: false, stopped: false }, Duplex::new(bytes, true));
    let r = server.run();
    assert!(r.is_ok());
    assert!(server.server.io.output.starts_with(b"HTTP/1.1 418 "));
}

#[test]
fn fatal_stops_the_loop_with_the_recorded_error() {
    let mut bytes = Vec::new();
    bytes.extend_from_slice(b"GET /stop HTTP/1.1\r\nHost: x\r\n\r\n");
    bytes.extend_from_slice(b"GET /never HTTP/1.1\r\nHost: x\r\n\r\n");
    let mut server = Server::new(Root { started: false, stopped: false }, Duplex::new(bytes, true));
    match server.run() {
        Err(ServerError::Handler(e)) => assert_eq!(e, AppError(503)),
        _ => panic!("expected the recorded stop reason"),
    }
    // only the first request was answered
    let out = String::from_utf8(server.server.io.output.clone()).unwrap();
    assert_eq!(out.matches("HTTP/1.1").count(), 1);
}

#[test]
fn response_error_default_response_carries_the_status() {
    let res = AppError(429).to_response();
    assert_eq!(res.status(), 429);
    assert!(!res.has_upgrade());
}

struct Tag(&'static str);

struct Tagged<S> {
    tag: &'static str,
    inner: S,
}

impl<S> Layer<S> for Tag {
    type Service = Tagged<S>;

    fn wrap(&self, inner: S) -> Tagged<S> {
        Tagged { tag: self.0, inner }
    }
}

#[test]
fn builder_wraps_with_the_first_layer_outermost() {
    let builder = Builder::new().layer(Tag("first")).layer(Tag("second"));
    let wrapped = builder.service(7u32);
    assert_eq!(wrapped.tag, "first");
    assert_eq!(wrapped.inner.tag, "second");
    assert_eq!(wrapped.inner.inner, 7);
}

#[test]
fn identity_layer_returns_the_service_as_is() {
    let builder = Builder::new();
    let n = builder.service(41u32);
    assert_eq!(n, 41);
    assert!(matches!(builder.into_inner(), Identity));
}

#[test]
fn rate_limiter_spends_its_budget_within_a_window() {
    let layer = RateLimitLayer { rate: Rate { requests: 2, per_ms: 1000 } };
    let mut svc: RateLimitService<u32> = layer.wrap(0);
    assert_eq!(svc.decide(0), RateDecision::Allow); // opens the window, 1 left
    assert_eq!(svc.decide(10), RateDecision::Allow); // 0 left
    assert_eq!(svc.decide(20), RateDecision::Reject { limit: 2, reset_ms: 1000 });
    assert_eq!(svc.decide(999), RateDecision::Reject { limit: 2, reset_ms: 1000 });
}

#[test]
fn limit_response_carries_the_three_ratelimit_headers() {
    let res = limit_response(2, 2500);
    assert_eq!(res.status(), 429);
    let mut out = Vec::new();
    acril_http::encode::encode_response(&res, acril_http::request::Method::Get, &mut out);
    assert_eq!(
        out,
        &b"HTTP/1.1 429 Too Many Requests\r\nx-ratelimit-limit: 2\r\nx-ratelimit-remaining: 0\r\nx-ratelimit-reset: 2\r\ncontent-length: 0\r\n\r\n"[..]
    );
}

#[test]
fn rate_limiter_opens_a_new_window_after_the_old_one() {
    let layer = RateLimitLayer { rate: Rate { requests: 2, per_ms: 1000 } };
    let mut svc: RateLimitService<u32> = layer.wrap(0);
    assert_eq!(svc.decide(0), RateDecision::Allow); // window [0, 1000), 1 left
    // past the window's end the next request starts a fresh window
    assert_eq!(svc.decide(1500), RateDecision::Allow); // window [1500, 2500), 0 left
    assert_eq!(svc.decide(1600), RateDecision::Reject { limit: 2, reset_ms: 2500 });
}
