//! The connection driver: keep-alive, close, timeout, upgrade, and the
//! mandatory body drain.

use acril_http::decode::{decode, HeadOutcome};
use acril_http::request::Request;
use acril_http::response::{Body, Response};
use acril_http::server::{ConnectionStatus, Duplex, Server, ServerError, ServerOptions};
use acril_http::service::{Handler, Service};

/// A handler answering 200 with a fixed body, counting its calls.
struct Ok200 {
    calls: usize,
    add_close: bool,
}

impl Service for Ok200 {
    type Context = ();
    type Error = String;
}

impl Handler<Request> for Ok200 {
    type Response = Response;

    fn call(&mut self, _request: Request, _cx: &mut ()) -> Result<Response, String> {
        self.calls += 1;
        let mut res = Response::new(200);
        if self.add_close {
            res.append_header(b"connection".to_vec(), b"close".to_vec());
        }
        res.set_body(Body::fixed(b"ok".to_vec()));
        Ok(res)
    }
}

fn server_over(bytes: &[u8]) -> Server {
    Server::new(Duplex::new(bytes.to_vec(), true))
}

#[test]
fn plain_get_is_keep_alive_eligible() {
    let mut server = server_over(b"GET / HTTP/1.1\r\nHost: x\r\n\r\n");
    let mut h = Ok200 { calls: 0, add_close: false };
    let r = server.accept_one(&mut h, &mut (), false);
    assert!(matches!(r, Ok(ConnectionStatus::KeepAlive)));
    assert_eq!(h.calls, 1);
    assert_eq!(server.io.output, b"HTTP/1.1 200 OK\r\ncontent-length: 2\r\n\r\nok");
}

#[test]
fn clean_eof_closes_without_error_and_without_output() {
    let mut server = server_over(b"");
    let mut h = Ok200 { calls: 0, add_close: false };
    let r = server.accept_one(&mut h, &mut (), false);
    assert!(matches!(r, Ok(ConnectionStatus::Close)));
    assert_eq!(h.calls, 0);
    assert!(server.io.output.is_empty());
    assert_eq!(server.io.pos, 0);
}

#[test]
fn header_timeout_behaves_exactly_like_clean_eof() {
    // a partial head sits in the stream, which is still open, and the
    // caller's header timer has expired
    let mut timed = Server::new(Duplex::new(b"GET / HT".to_vec(), false));
    let mut h = Ok200 { calls: 0, add_close: false };
    let r = timed.accept_one(&mut h, &mut (), true);
    assert!(matches!(r, Ok(ConnectionStatus::Close)));
    assert_eq!(h.calls, 0);
    assert!(timed.io.output.is_empty());
    assert_eq!(timed.io.pos, 0);

    // the observable effect equals the clean-EOF case
    let mut eof = server_over(b"");
    let r2 = eof.accept_one(&mut h, &mut (), false);
    assert!(matches!(r2, Ok(ConnectionStatus::Close)));
    assert_eq!(h.calls, 0);
    assert_eq!(eof.io.output, timed.io.output);
    assert_eq!(eof.io.pos, timed.io.pos);
}

#[test]
fn connection_close_on_the_request_forces_close() {
    let mut server = server_over(b"GET / HTTP/1.1\r\nConnection: close\r\n\r\n");
    let mut h = Ok200 { calls: 0, add_close: false };
    let r = server.accept_one(&mut h, &mut (), false);
    assert!(matches!(r, Ok(ConnectionStatus::Close)));
    assert_eq!(h.calls, 1);
}

#[test]
fn connection_close_on_the_response_forces_close() {
    let mut server = server_over(b"GET / HTTP/1.1\r\nHost: x\r\n\r\n");
    let mut h = Ok200 { calls: 0, add_close: true };
    let r = server.accept_one(&mut h, &mut (), false);
    assert!(matches!(r, Ok(ConnectionStatus::Close)));
    assert_eq!(h.calls, 1);
}

#[test]
fn connection_close_tokens_are_matched_case_insensitively() {
    let mut server = server_over(b"GET / HTTP/1.1\r\nConnection: keep-alive, CLOSE\r\n\r\n");
    let mut h = Ok200 { calls: 0, add_close: false };
    let r = server.accept_one(&mut h, &mut (), false);
    assert!(matches!(r, Ok(ConnectionStatus::Close)));
}

/// A handler that never reads the request body it is given.
struct IgnoresBody;

impl Service for IgnoresBody {
    type Context = ();
    type Error = String;
}

impl Handler<Request> for IgnoresBody {
    type Response = Response;

    fn call(&mut self, _request: Request, _cx: &mut ()) -> Result<Response, String> {
        Ok(Response::new(204))
    }
}

#[test]
fn unread_body_is_drained_before_the_next_cycle() {
    // two back-to-back requests; the handler ignores the first body
    let mut bytes = b"POST /a HTTP/1.1\r\nContent-Length: 5\r\n\r\nhello".to_vec();
    bytes.extend_from_slice(b"GET /b HTTP/1.1\r\nHost: x\r\n\r\n");
    let mut server = server_over(&bytes);
    let mut h = IgnoresBody;
    let r1 = server.accept_one(&mut h, &mut (), false);
    assert!(matches!(r1, Ok(ConnectionStatus::KeepAlive)));
    // the cursor moved past the unread body, so the second request decodes
    let r2 = server.accept_one(&mut h, &mut (), false);
    assert!(matches!(r2, Ok(ConnectionStatus::KeepAlive)));
    let r3 = server.accept_one(&mut h, &mut (), false);
    assert!(matches!(r3, Ok(ConnectionStatus::Close)));
}

/// A handler that answers `101 Switching Protocols` with the upgrade
/// marker when asked to upgrade.
struct Upgrader;

impl Service for Upgrader {
    type Context = ();
    type Error = String;
}

impl Handler<Request> for Upgrader {
    type Response = Response;

    fn call(&mut self, _request: Request, _cx: &mut ()) -> Result<Response, String> {
        let mut res = Response::new(101);
        res.send_upgrade();
        Ok(res)
    }
}

#[test]
fn upgrade_hands_the_stream_over_and_ends_the_http_loop() {
    let mut server =
        server_over(b"GET /ws HTTP/1.1\r\nUpgrade: websocket\r\nConnection: upgrade\r\n\r\n");
    let mut h = Upgrader;
    let r = server.accept_one(&mut h, &mut (), false);
    assert!(matches!(r, Ok(ConnectionStatus::Close)));
    assert!(server.io.output.starts_with(b"HTTP/1.1 101 Switching Protocols\r\n"));
    let stream = server.take_upgrade();
    assert!(stream.is_some());
}

#[test]
fn a_101_without_an_upgrade_request_is_no_upgrade() {
    // the request never asked for an upgrade, so the stream stays HTTP
    let mut server = server_over(b"GET / HTTP/1.1\r\nHost: x\r\n\r\n");
    let mut h = Upgrader;
    let r = server.accept_one(&mut h, &mut (), false);
    assert!(matches!(r, Ok(ConnectionStatus::KeepAlive)));
    assert!(server.take_upgrade().is_none());
}

#[test]
fn an_upgrade_request_without_a_101_is_no_upgrade() {
    let mut server =
        server_over(b"GET /ws HTTP/1.1\r\nUpgrade: websocket\r\nConnection: upgrade\r\n\r\n");
    let mut h = Ok200 { calls: 0, add_close: false };
    let r = server.accept_one(&mut h, &mut (), false);
    assert!(matches!(r, Ok(ConnectionStatus::KeepAlive)));
    assert!(server.take_upgrade().is_none());
}

/// A handler that always fails.
struct Failing;

impl Service for Failing {
    type Context = ();
    type Error = String;
}

impl Handler<Request> for Failing {
    type Response = Response;

    fn call(&mut self, _request: Request, _cx: &mut ()) -> Result<Response, String> {
        Err("boom".to_string())
    }
}

#[test]
fn handler_errors_are_fatal_to_the_connection() {
    let mut server = server_over(b"GET / HTTP/1.1\r\nHost: x\r\n\r\n");
    let mut h = Failing;
    match server.accept_one(&mut h, &mut (), false) {
        Err(ServerError::Handler(e)) => assert_eq!(e, "boom"),
        _ => panic!("expected the handler's error"),
    }
    assert!(server.io.output.is_empty());
}

#[test]
fn protocol_errors_are_reported_as_such() {
    let mut server = server_over(b"BREW / HTTP/1.1\r\n\r\n");
    let mut h = Ok200 { calls: 0, add_close: false };
    match server.accept_one(&mut h, &mut (), false) {
        Err(ServerError::Protocol(e)) => assert_eq!(e, acril_http::HttpError::UnknownMethod),
        _ => panic!("expected a protocol error"),
    }
    assert_eq!(h.calls, 0);
}

#[test]
fn a_stream_can_be_fed_incrementally() {
    let mut io = Duplex::new(b"GET / HT".to_vec(), false);
    assert!(matches!(decode(&io.input, io.pos, io.closed), Ok(HeadOutcome::Incomplete)));
    io.feed(b"TP/1.1\r\nHost: x\r\n\r\n");
    io.close();
    let mut server = Server::new(io);
    let mut h = Ok200 { calls: 0, add_close: false };
    assert!(matches!(server.accept_one(&mut h, &mut (), false), Ok(ConnectionStatus::KeepAlive)));
    assert_eq!(h.calls, 1);
}

#[test]
fn default_options_give_a_sixty_second_timeout() {
    let opts = ServerOptions::default();
    assert_eq!(opts.headers_timeout, Some(60000));
    let server = server_over(b"").with_opts(ServerOptions { headers_timeout: None });
    assert_eq!(server.opts.headers_timeout, None);
}
