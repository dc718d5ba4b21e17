//! Request decoding: request line, headers, framing, and body reading.

use acril_http::chunked::ChunkedRead;
use acril_http::decode::{decode, read_body, BodyFraming, HeadOutcome};
use acril_http::request::Method;
use acril_http::HttpError;

fn must_decode(input: &[u8]) -> acril_http::decode::RequestHead {
    match decode(input, 0, true) {
        Ok(HeadOutcome::Request(h)) => h,
        _ => panic!("expected a decoded request"),
    }
}

#[test]
fn plain_get_decodes_to_a_zero_length_body() {
    let input = b"GET / HTTP/1.1\r\nHost: x\r\n\r\n";
    let head = must_decode(input);
    assert_eq!(head.method, Method::Get);
    assert_eq!(head.target, b"/");
    assert_eq!(head.framing, BodyFraming::Fixed(0));
    assert_eq!(head.body_start, input.len());
    assert_eq!(head.headers.len(), 1);
    assert_eq!(head.headers.get(b"host").map(|v| v.as_slice()), Some(&b"x"[..]));
    match read_body(input, head.body_start, head.framing) {
        ChunkedRead::Done(body, end) => {
            assert!(body.is_empty());
            assert_eq!(end, input.len());
        }
        _ => panic!("expected an empty body"),
    }
}

#[test]
fn content_length_body_is_read_exactly() {
    let input = b"POST /submit HTTP/1.1\r\nContent-Length: 5\r\n\r\nhelloEXTRA";
    let head = must_decode(input);
    assert_eq!(head.method, Method::Post);
    assert_eq!(head.framing, BodyFraming::Fixed(5));
    match read_body(input, head.body_start, head.framing) {
        ChunkedRead::Done(body, end) => {
            assert_eq!(body, b"hello");
            assert_eq!(end, input.len() - 5);
        }
        _ => panic!("expected a body"),
    }
}

#[test]
fn chunked_request_body_is_unframed() {
    let input = b"POST /u HTTP/1.1\r\nTransfer-Encoding: chunked\r\n\r\n3\r\nabc\r\n2\r\nde\r\n0\r\n\r\n";
    let head = must_decode(input);
    assert_eq!(head.framing, BodyFraming::Chunked);
    match read_body(input, head.body_start, head.framing) {
        ChunkedRead::Done(body, end) => {
            assert_eq!(body, b"abcde");
            assert_eq!(end, input.len());
        }
        _ => panic!("expected a chunked body"),
    }
}

#[test]
fn transfer_encoding_takes_precedence_over_content_length() {
    let input =
        b"POST /u HTTP/1.1\r\nContent-Length: 99\r\nTransfer-Encoding: chunked\r\n\r\n0\r\n\r\n";
    let head = must_decode(input);
    assert_eq!(head.framing, BodyFraming::Chunked);
}

#[test]
fn header_names_are_case_insensitive() {
    let input = b"GET / HTTP/1.1\r\nCONTENT-length: 3\r\n\r\nabc";
    let head = must_decode(input);
    assert_eq!(head.framing, BodyFraming::Fixed(3));
    assert_eq!(head.headers.get(b"Content-Length").map(|v| v.as_slice()), Some(&b"3"[..]));
}

#[test]
fn repeated_headers_keep_order_and_first_wins_lookup() {
    let input = b"GET / HTTP/1.1\r\nX-Tag: one\r\nX-Tag: two\r\n\r\n";
    let head = must_decode(input);
    assert_eq!(head.headers.len(), 2);
    assert_eq!(head.headers.get(b"x-tag").map(|v| v.as_slice()), Some(&b"one"[..]));
}

#[test]
fn header_values_are_trimmed() {
    let input = b"GET / HTTP/1.1\r\nHost:   spaced.example \t\r\n\r\n";
    let head = must_decode(input);
    assert_eq!(head.headers.get(b"host").map(|v| v.as_slice()), Some(&b"spaced.example"[..]));
}

#[test]
fn clean_end_of_stream_is_not_an_error() {
    assert!(matches!(decode(b"", 0, true), Ok(HeadOutcome::Clean)));
}

#[test]
fn empty_open_stream_needs_more_input() {
    assert!(matches!(decode(b"", 0, false), Ok(HeadOutcome::Incomplete)));
    assert!(matches!(decode(b"GET / HT", 0, false), Ok(HeadOutcome::Incomplete)));
    assert!(matches!(decode(b"GET / HTTP/1.1\r\nHost: x\r\n", 0, false), Ok(HeadOutcome::Incomplete)));
}

#[test]
fn partial_request_on_closed_stream_is_an_error() {
    assert!(matches!(decode(b"GET / HT", 0, true), Err(HttpError::UnexpectedEof)));
    assert!(matches!(
        decode(b"GET / HTTP/1.1\r\nHost: x\r\n", 0, true),
        Err(HttpError::UnexpectedEof)
    ));
}

#[test]
fn malformed_request_lines_are_rejected() {
    assert!(matches!(decode(b"GET /\r\n\r\n", 0, true), Err(HttpError::MalformedRequestLine)));
    assert!(matches!(
        decode(b"GET  HTTP/1.1\r\n\r\n", 0, true),
        Err(HttpError::MalformedRequestLine)
    ));
    assert!(matches!(
        decode(b"GET / HTTP/1.0\r\n\r\n", 0, true),
        Err(HttpError::MalformedRequestLine)
    ));
}

#[test]
fn unknown_method_is_rejected() {
    assert!(matches!(decode(b"BREW / HTTP/1.1\r\n\r\n", 0, true), Err(HttpError::UnknownMethod)));
    assert!(matches!(decode(b"get / HTTP/1.1\r\n\r\n", 0, true), Err(HttpError::UnknownMethod)));
}

#[test]
fn all_nine_methods_parse() {
    for (tok, m) in [
        (&b"GET"[..], Method::Get),
        (b"HEAD", Method::Head),
        (b"POST", Method::Post),
        (b"PUT", Method::Put),
        (b"DELETE", Method::Delete),
        (b"CONNECT", Method::Connect),
        (b"OPTIONS", Method::Options),
        (b"TRACE", Method::Trace),
        (b"PATCH", Method::Patch),
    ] {
        let mut input = tok.to_vec();
        input.extend_from_slice(b" /x HTTP/1.1\r\n\r\n");
        assert_eq!(must_decode(&input).method, m);
    }
}

#[test]
fn malformed_headers_are_rejected() {
    assert!(matches!(
        decode(b"GET / HTTP/1.1\r\nno colon here\r\n\r\n", 0, true),
        Err(HttpError::MalformedHeader)
    ));
    assert!(matches!(
        decode(b"GET / HTTP/1.1\r\n: empty-name\r\n\r\n", 0, true),
        Err(HttpError::MalformedHeader)
    ));
    assert!(matches!(
        decode(b"GET / HTTP/1.1\r\nbad name: x\r\n\r\n", 0, true),
        Err(HttpError::MalformedHeader)
    ));
}

#[test]
fn invalid_content_length_is_rejected() {
    assert!(matches!(
        decode(b"GET / HTTP/1.1\r\nContent-Length: abc\r\n\r\n", 0, true),
        Err(HttpError::InvalidContentLength)
    ));
    assert!(matches!(
        decode(b"GET / HTTP/1.1\r\nContent-Length:\r\n\r\n", 0, true),
        Err(HttpError::InvalidContentLength)
    ));
}

#[test]
fn fixed_body_short_of_its_length_is_incomplete() {
    let input = b"POST / HTTP/1.1\r\nContent-Length: 10\r\n\r\nabc";
    let head = must_decode(input);
    assert!(matches!(read_body(input, head.body_start, head.framing), ChunkedRead::Incomplete));
}
