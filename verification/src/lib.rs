//! A verified HTTP/1.1 wire-protocol engine: request decoding, response
//! encoding, chunked transfer framing, and a per-connection driver.

use vstd::prelude::*;

pub mod ascii;
pub mod chunked;
pub mod decode;
pub mod encode;
pub mod headers;
pub mod http_server;
pub mod num;
pub mod rate_limit;
pub mod request;
pub mod response;
pub mod scan;
pub mod server;
pub mod service;

verus! {

/// Carriage return, the first byte of the CRLF line terminator.
pub const CR: u8 = 13;

/// Line feed, the second byte of the CRLF line terminator.
pub const LF: u8 = 10;

/// True of the bytes that ASCII calls decimal digits.
pub open spec fn is_digit(c: u8) -> bool {
    48 <= c <= 57
}

/// Lower-cases a single ASCII byte; other bytes are unchanged.
pub open spec fn lower(c: u8) -> u8 {
    if 65 <= c <= 90 {
        (c + 32) as u8
    } else {
        c
    }
}

/// Appends every byte of `src` to `out`.
pub fn push_bytes(out: &mut Vec<u8>, src: &[u8])
    ensures
        final(out)@ == old(out)@ + src@,
{
    let mut i: usize = 0;
    proof {
        assert(old(out)@ + src@.take(0) =~= old(out)@);
    }
    while i < src.len()
        invariant
            0 <= i <= src@.len(),
            out@ == old(out)@ + src@.take(i as int),
        decreases src@.len() - i,
    {
        out.push(src[i]);
        proof {
            assert(old(out)@ + src@.take(i as int + 1) =~= (old(out)@ + src@.take(i as int)).push(
                src@[i as int],
            ));
        }
        i = i + 1;
    }
    proof {
        assert(src@.take(src@.len() as int) =~= src@);
    }
}

/// Everything that can go wrong while reading a request from the wire.
#[derive(Clone, Copy, Debug, PartialEq, Eq, Structural)]
pub enum HttpError {
    /// The first line of the request does not have the shape
    /// `method SP target SP HTTP/1.1`.
    MalformedRequestLine,
    /// The method token is none of the nine known verbs.
    UnknownMethod,
    /// A header line has no colon, or an empty or malformed name.
    MalformedHeader,
    /// A `Content-Length` value that is not a plain decimal number.
    InvalidContentLength,
    /// A chunk size line that is empty or not hexadecimal, or a chunk not
    /// closed by CRLF.
    MalformedChunk,
    /// The stream ended in the middle of a request.
    UnexpectedEof,
}

} // verus!
