//! Response encoding: status line, headers, framing, and body paths.

use acril_http::encode::encode_response;
use acril_http::request::Method;
use acril_http::response::{Body, Response};

#[test]
fn fixed_length_response_is_byte_exact() {
    let mut res = Response::new(200);
    res.set_body(Body::fixed(b"hello".to_vec()));
    let mut out = Vec::new();
    let written = encode_response(&res, Method::Get, &mut out);
    assert_eq!(out, b"HTTP/1.1 200 OK\r\ncontent-length: 5\r\n\r\nhello");
    assert_eq!(written, out.len());
}

#[test]
fn fixed_length_response_has_no_transfer_encoding() {
    let mut res = Response::new(200);
    res.set_body(Body::fixed(b"hello".to_vec()));
    let mut out = Vec::new();
    encode_response(&res, Method::Get, &mut out);
    let text = String::from_utf8(out).unwrap();
    assert!(!text.to_ascii_lowercase().contains("transfer-encoding"));
    assert!(text.to_ascii_lowercase().contains("content-length: 5"));
}

#[test]
fn user_headers_are_emitted_in_order() {
    let mut res = Response::new(204);
    res.append_header(b"x-one".to_vec(), b"1".to_vec());
    res.append_header(b"x-two".to_vec(), b"2".to_vec());
    let mut out = Vec::new();
    encode_response(&res, Method::Get, &mut out);
    assert_eq!(
        out,
        b"HTTP/1.1 204 No Content\r\nx-one: 1\r\nx-two: 2\r\ncontent-length: 0\r\n\r\n"
    );
}

#[test]
fn unknown_length_body_travels_chunked() {
    let mut res = Response::new(200);
    res.set_body(Body::unbounded(b"abc".to_vec()));
    let mut out = Vec::new();
    encode_response(&res, Method::Get, &mut out);
    assert_eq!(out, b"HTTP/1.1 200 OK\r\ntransfer-encoding: chunked\r\n\r\n3\r\nabc\r\n0\r\n\r\n");
}

#[test]
fn head_request_suppresses_the_body_but_not_the_headers() {
    let mut res = Response::new(200);
    res.set_body(Body::fixed(b"hello".to_vec()));
    let mut out = Vec::new();
    let written = encode_response(&res, Method::Head, &mut out);
    assert_eq!(out, b"HTTP/1.1 200 OK\r\ncontent-length: 5\r\n\r\n");
    assert_eq!(written, out.len());
}

#[test]
fn empty_body_from_the_caller_emits_no_body_bytes() {
    let res = Response::new(304);
    let mut out = Vec::new();
    encode_response(&res, Method::Get, &mut out);
    assert_eq!(out, b"HTTP/1.1 304 Not Modified\r\ncontent-length: 0\r\n\r\n");
}

#[test]
fn unknown_status_gets_an_empty_reason() {
    let res = Response::new(599);
    let mut out = Vec::new();
    encode_response(&res, Method::Get, &mut out);
    assert_eq!(out, b"HTTP/1.1 599 \r\ncontent-length: 0\r\n\r\n");
}

#[test]
fn common_reason_phrases_are_canonical() {
    for (status, line) in [
        (101u16, &b"HTTP/1.1 101 Switching Protocols\r\n"[..]),
        (404, b"HTTP/1.1 404 Not Found\r\n"),
        (429, b"HTTP/1.1 429 Too Many Requests\r\n"),
        (500, b"HTTP/1.1 500 Internal Server Error\r\n"),
    ] {
        let res = Response::new(status);
        let mut out = Vec::new();
        encode_response(&res, Method::Get, &mut out);
        assert!(out.starts_with(line), "wrong status line for {status}");
    }
}

#[test]
fn body_length_is_reported_only_when_known() {
    let known = Body::fixed(b"xyz".to_vec());
    assert_eq!(known.len(), Some(3));
    let unknown = Body::unbounded(b"xyz".to_vec());
    assert_eq!(unknown.len(), None);
    let empty = Body::empty();
    assert_eq!(empty.len(), Some(0));
}
