//! Numeric formatting, parsing, and chunked-framing round trips.

use acril_http::chunked::{decode_chunked, encode_chunked, ChunkedRead};
use acril_http::num::{parse_dec, parse_hex, write_dec, write_hex};

#[test]
fn decimal_writer_formats_exactly() {
    let mut out = Vec::new();
    write_dec(0, &mut out);
    assert_eq!(out, b"0");
    out.clear();
    write_dec(60000, &mut out);
    assert_eq!(out, b"60000");
    out.clear();
    write_dec(u64::MAX, &mut out);
    assert_eq!(out, b"18446744073709551615");
}

#[test]
fn hex_writer_formats_exactly() {
    let mut out = Vec::new();
    write_hex(0, &mut out);
    assert_eq!(out, b"0");
    out.clear();
    write_hex(255, &mut out);
    assert_eq!(out, b"ff");
    out.clear();
    write_hex(4096, &mut out);
    assert_eq!(out, b"1000");
}

#[test]
fn decimal_parser_accepts_digits_only() {
    assert_eq!(parse_dec(b"0"), Some(0));
    assert_eq!(parse_dec(b"007"), Some(7));
    assert_eq!(parse_dec(b"18446744073709551615"), Some(u64::MAX));
    assert_eq!(parse_dec(b"18446744073709551616"), None); // one past u64::MAX
    assert_eq!(parse_dec(b""), None);
    assert_eq!(parse_dec(b"12a"), None);
    assert_eq!(parse_dec(b"-1"), None);
    assert_eq!(parse_dec(b" 5"), None);
}

#[test]
fn hex_parser_accepts_both_cases() {
    assert_eq!(parse_hex(b"ff"), Some(255));
    assert_eq!(parse_hex(b"FF"), Some(255));
    assert_eq!(parse_hex(b"1A"), Some(26));
    assert_eq!(parse_hex(b"0"), Some(0));
    assert_eq!(parse_hex(b""), None);
    assert_eq!(parse_hex(b"g1"), None);
}

#[test]
fn chunked_encoding_is_byte_exact() {
    let mut out = Vec::new();
    encode_chunked(b"hello world", 4, &mut out);
    assert_eq!(out, b"4\r\nhell\r\n4\r\no wo\r\n3\r\nrld\r\n0\r\n\r\n");
}

#[test]
fn chunked_encoding_of_empty_body_is_the_terminator() {
    let mut out = Vec::new();
    encode_chunked(b"", 4096, &mut out);
    assert_eq!(out, b"0\r\n\r\n");
}

#[test]
fn chunk_boundaries_do_not_affect_round_trip() {
    let body = b"The quick brown fox jumps over the lazy dog";
    for size in [1usize, 2, 3, 5, 7, 16, 64, 4096] {
        let mut wire = Vec::new();
        encode_chunked(body, size, &mut wire);
        match decode_chunked(&wire, 0) {
            ChunkedRead::Done(decoded, end) => {
                assert_eq!(decoded, body);
                assert_eq!(end, wire.len());
            }
            _ => panic!("round trip failed for chunk size {size}"),
        }
    }
}

#[test]
fn decoding_stops_at_the_terminator() {
    // bytes of the next message after the blank line must stay unread
    let mut wire = Vec::new();
    encode_chunked(b"abc", 2, &mut wire);
    let body_end = wire.len();
    wire.extend_from_slice(b"GET / HTTP/1.1\r\n");
    match decode_chunked(&wire, 0) {
        ChunkedRead::Done(decoded, end) => {
            assert_eq!(decoded, b"abc");
            assert_eq!(end, body_end);
        }
        _ => panic!("decode failed"),
    }
}

#[test]
fn trailers_are_consumed_and_discarded() {
    let wire = b"5\r\nhello\r\n0\r\nx-checksum: abc\r\n\r\nrest";
    match decode_chunked(wire, 0) {
        ChunkedRead::Done(decoded, end) => {
            assert_eq!(decoded, b"hello");
            assert_eq!(end, wire.len() - 4);
        }
        _ => panic!("decode failed"),
    }
}

#[test]
fn uppercase_chunk_sizes_are_accepted() {
    let wire = b"A\r\n0123456789\r\n0\r\n\r\n";
    match decode_chunked(wire, 0) {
        ChunkedRead::Done(decoded, end) => {
            assert_eq!(decoded, b"0123456789");
            assert_eq!(end, wire.len());
        }
        _ => panic!("decode failed"),
    }
}

#[test]
fn malformed_size_line_is_rejected() {
    assert!(matches!(decode_chunked(b"zz\r\nxx\r\n0\r\n\r\n", 0), ChunkedRead::Malformed));
    assert!(matches!(decode_chunked(b"\r\n0\r\n\r\n", 0), ChunkedRead::Malformed));
}

#[test]
fn chunk_without_closing_crlf_is_rejected() {
    assert!(matches!(decode_chunked(b"3\r\nabcXY0\r\n\r\n", 0), ChunkedRead::Malformed));
}

#[test]
fn truncated_chunked_body_is_incomplete() {
    assert!(matches!(decode_chunked(b"5\r\nhel", 0), ChunkedRead::Incomplete));
    assert!(matches!(decode_chunked(b"5\r\nhello\r\n", 0), ChunkedRead::Incomplete));
    assert!(matches!(decode_chunked(b"5\r\nhello\r\n0\r\n", 0), ChunkedRead::Incomplete));
    assert!(matches!(decode_chunked(b"", 0), ChunkedRead::Incomplete));
}

#[test]
fn oversized_chunk_size_is_incomplete_not_malformed() {
    // a declared size the input cannot hold, larger than any u64
    assert!(matches!(
        decode_chunked(b"ffffffffffffffffff\r\nabc\r\n0\r\n\r\n", 0),
        ChunkedRead::Incomplete
    ));
}
