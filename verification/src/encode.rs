//! The response encoder: writes the status line, the headers, the framing
//! header that matches the body, a blank line, and the framed body.

use vstd::prelude::*;

use crate::chunked::{chunked_encoding, chunks_of, encode_chunked, CHUNK_SIZE};
use crate::decode::{name_content_length, name_transfer_encoding, token_chunked, version_token};
use crate::headers::HeaderView;
use crate::num::{dec_digits, write_dec};
use crate::request::Method;
use crate::response::{BodyView, Response};
use crate::{push_bytes, CR, LF};

verus! {

/// The reason phrase written after the status code, for the statuses the
/// engine knows; an empty phrase for the rest.
#[verifier::opaque]
pub open spec fn reason_phrase(status: u16) -> Seq<u8> {
    if status == 100 {
        seq![67u8, 111, 110, 116, 105, 110, 117, 101]  // Continue
    } else
    if status == 101 {
        seq![83u8, 119, 105, 116, 99, 104, 105, 110, 103, 32, 80, 114, 111, 116, 111, 99, 111, 108, 115]  // Switching Protocols
    } else
    if status == 200 {
        seq![79u8, 75]  // OK
    } else
    if status == 201 {
        seq![67u8, 114, 101, 97, 116, 101, 100]  // Created
    } else
    if status == 202 {
        seq![65u8, 99, 99, 101, 112, 116, 101, 100]  // Accepted
    } else
    if status == 204 {
        seq![78u8, 111, 32, 67, 111, 110, 116, 101, 110, 116]  // No Content
    } else
    if status == 301 {
        seq![77u8, 111, 118, 101, 100, 32, 80, 101, 114, 109, 97, 110, 101, 110, 116, 108, 121]  // Moved Permanently
    } else
    if status == 302 {
        seq![70u8, 111, 117, 110, 100]  // Found
    } else
    if status == 304 {
        seq![78u8, 111, 116, 32, 77, 111, 100, 105, 102, 105, 101, 100]  // Not Modified
    } else
    if status == 400 {
        seq![66u8, 97, 100, 32, 82, 101, 113, 117, 101, 115, 116]  // Bad Request
    } else
    if status == 401 {
        seq![85u8, 110, 97, 117, 116, 104, 111, 114, 105, 122, 101, 100]  // Unauthorized
    } else
    if status == 403 {
        seq![70u8, 111, 114, 98, 105, 100, 100, 101, 110]  // Forbidden
    } else
    if status == 404 {
        seq![78u8, 111, 116, 32, 70, 111, 117, 110, 100]  // Not Found
    } else
    if status == 405 {
        seq![77u8, 101, 116, 104, 111, 100, 32, 78, 111, 116, 32, 65, 108, 108, 111, 119, 101, 100]  // Method Not Allowed
    } else
    if status == 408 {
        seq![82u8, 101, 113, 117, 101, 115, 116, 32, 84, 105, 109, 101, 111, 117, 116]  // Request Timeout
    } else
    if status == 413 {
        seq![80u8, 97, 121, 108, 111, 97, 100, 32, 84, 111, 111, 32, 76, 97, 114, 103, 101]  // Payload Too Large
    } else
    if status == 429 {
        seq![84u8, 111, 111, 32, 77, 97, 110, 121, 32, 82, 101, 113, 117, 101, 115, 116, 115]  // Too Many Requests
    } else
    if status == 500 {
        seq![73u8, 110, 116, 101, 114, 110, 97, 108, 32, 83, 101, 114, 118, 101, 114, 32, 69, 114, 114, 111, 114]  // Internal Server Error
    } else
    if status == 501 {
        seq![78u8, 111, 116, 32, 73, 109, 112, 108, 101, 109, 101, 110, 116, 101, 100]  // Not Implemented
    } else
    if status == 503 {
        seq![83u8, 101, 114, 118, 105, 99, 101, 32, 85, 110, 97, 118, 97, 105, 108, 97, 98, 108, 101]  // Service Unavailable
    } else {
        Seq::empty()
    }
}

/// Appends the reason phrase of `status` to `out`.
pub fn write_reason(status: u16, out: &mut Vec<u8>)
    ensures
        final(out)@ == old(out)@ + reason_phrase(status),
{
    proof {
        reveal(reason_phrase);
    }
    if status == 100 {
        out.push(67);
        out.push(111);
        out.push(110);
        out.push(116);
        out.push(105);
        out.push(110);
        out.push(117);
        out.push(101);
        proof {
            assert(out@ =~= old(out)@ + reason_phrase(status));
        }
    } else
    if status == 101 {
        out.push(83);
        out.push(119);
        out.push(105);
        out.push(116);
        out.push(99);
        out.push(104);
        out.push(105);
        out.push(110);
        out.push(103);
        out.push(32);
        out.push(80);
        out.push(114);
        out.push(111);
        out.push(116);
        out.push(111);
        out.push(99);
        out.push(111);
        out.push(108);
        out.push(115);
        proof {
            assert(out@ =~= old(out)@ + reason_phrase(status));
        }
    } else
    if status == 200 {
        out.push(79);
        out.push(75);
        proof {
            assert(out@ =~= old(out)@ + reason_phrase(status));
        }
    } else
    if status == 201 {
        out.push(67);
        out.push(114);
        out.push(101);
        out.push(97);
        out.push(116);
        out.push(101);
        out.push(100);
        proof {
            assert(out@ =~= old(out)@ + reason_phrase(status));
        }
    } else
    if status == 202 {
        out.push(65);
        out.push(99);
        out.push(99);
        out.push(101);
        out.push(112);
        out.push(116);
        out.push(101);
        out.push(100);
        proof {
            assert(out@ =~= old(out)@ + reason_phrase(status));
        }
    } else
    if status == 204 {
        out.push(78);
        out.push(111);
        out.push(32);
        out.push(67);
        out.push(111);
        out.push(110);
        out.push(116);
        out.push(101);
        out.push(110);
        out.push(116);
        proof {
            assert(out@ =~= old(out)@ + reason_phrase(status));
        }
    } else
    if status == 301 {
        out.push(77);
        out.push(111);
        out.push(118);
        out.push(101);
        out.push(100);
        out.push(32);
        out.push(80);
        out.push(101);
        out.push(114);
        out.push(109);
        out.push(97);
        out.push(110);
        out.push(101);
        out.push(110);
        out.push(116);
        out.push(108);
        out.push(121);
        proof {
            assert(out@ =~= old(out)@ + reason_phrase(status));
        }
    } else
    if status == 302 {
        out.push(70);
        out.push(111);
        out.push(117);
        out.push(110);
        out.push(100);
        proof {
            assert(out@ =~= old(out)@ + reason_phrase(status));
        }
    } else
    if status == 304 {
        out.push(78);
        out.push(111);
        out.push(116);
        out.push(32);
        out.push(77);
        out.push(111);
        out.push(100);
        out.push(105);
        out.push(102);
        out.push(105);
        out.push(101);
        out.push(100);
        proof {
            assert(out@ =~= old(out)@ + reason_phrase(status));
        }
    } else
    if status == 400 {
        out.push(66);
        out.push(97);
        out.push(100);
        out.push(32);
        out.push(82);
        out.push(101);
        out.push(113);
        out.push(117);
        out.push(101);
        out.push(115);
        out.push(116);
        proof {
            assert(out@ =~= old(out)@ + reason_phrase(status));
        }
    } else
    if status == 401 {
        out.push(85);
        out.push(110);
        out.push(97);
        out.push(117);
        out.push(116);
        out.push(104);
        out.push(111);
        out.push(114);
        out.push(105);
        out.push(122);
        out.push(101);
        out.push(100);
        proof {
            assert(out@ =~= old(out)@ + reason_phrase(status));
        }
    } else
    if status == 403 {
        out.push(70);
        out.push(111);
        out.push(114);
        out.push(98);
        out.push(105);
        out.push(100);
        out.push(100);
        out.push(101);
        out.push(110);
        proof {
            assert(out@ =~= old(out)@ + reason_phrase(status));
        }
    } else
    if status == 404 {
        out.push(78);
        out.push(111);
        out.push(116);
        out.push(32);
        out.push(70);
        out.push(111);
        out.push(117);
        out.push(110);
        out.push(100);
        proof {
            assert(out@ =~= old(out)@ + reason_phrase(status));
        }
    } else
    if status == 405 {
        out.push(77);
        out.push(101);
        out.push(116);
        out.push(104);
        out.push(111);
        out.push(100);
        out.push(32);
        out.push(78);
        out.push(111);
        out.push(116);
        out.push(32);
        out.push(65);
        out.push(108);
        out.push(108);
        out.push(111);
        out.push(119);
        out.push(101);
        out.push(100);
        proof {
            assert(out@ =~= old(out)@ + reason_phrase(status));
        }
    } else
    if status == 408 {
        out.push(82);
        out.push(101);
        out.push(113);
        out.push(117);
        out.push(101);
        out.push(115);
        out.push(116);
        out.push(32);
        out.push(84);
        out.push(105);
        out.push(109);
        out.push(101);
        out.push(111);
        out.push(117);
        out.push(116);
        proof {
            assert(out@ =~= old(out)@ + reason_phrase(status));
        }
    } else
    if status == 413 {
        out.push(80);
        out.push(97);
        out.push(121);
        out.push(108);
        out.push(111);
        out.push(97);
        out.push(100);
        out.push(32);
        out.push(84);
        out.push(111);
        out.push(111);
        out.push(32);
        out.push(76);
        out.push(97);
        out.push(114);
        out.push(103);
        out.push(101);
        proof {
            assert(out@ =~= old(out)@ + reason_phrase(status));
        }
    } else
    if status == 429 {
        out.push(84);
        out.push(111);
        out.push(111);
        out.push(32);
        out.push(77);
        out.push(97);
        out.push(110);
        out.push(121);
        out.push(32);
        out.push(82);
        out.push(101);
        out.push(113);
        out.push(117);
        out.push(101);
        out.push(115);
        out.push(116);
        out.push(115);
        proof {
            assert(out@ =~= old(out)@ + reason_phrase(status));
        }
    } else
    if status == 500 {
        out.push(73);
        out.push(110);
        out.push(116);
        out.push(101);
        out.push(114);
        out.push(110);
        out.push(97);
        out.push(108);
        out.push(32);
        out.push(83);
        out.push(101);
        out.push(114);
        out.push(118);
        out.push(101);
        out.push(114);
        out.push(32);
        out.push(69);
        out.push(114);
        out.push(114);
        out.push(111);
        out.push(114);
        proof {
            assert(out@ =~= old(out)@ + reason_phrase(status));
        }
    } else
    if status == 501 {
        out.push(78);
        out.push(111);
        out.push(116);
        out.push(32);
        out.push(73);
        out.push(109);
        out.push(112);
        out.push(108);
        out.push(101);
        out.push(109);
        out.push(101);
        out.push(110);
        out.push(116);
        out.push(101);
        out.push(100);
        proof {
            assert(out@ =~= old(out)@ + reason_phrase(status));
        }
    } else
    if status == 503 {
        out.push(83);
        out.push(101);
        out.push(114);
        out.push(118);
        out.push(105);
        out.push(99);
        out.push(101);
        out.push(32);
        out.push(85);
        out.push(110);
        out.push(97);
        out.push(118);
        out.push(97);
        out.push(105);
        out.push(108);
        out.push(97);
        out.push(98);
        out.push(108);
        out.push(101);
        proof {
            assert(out@ =~= old(out)@ + reason_phrase(status));
        }
    } else {
        proof {
            assert(out@ =~= old(out)@ + reason_phrase(status));
        }
    }
}

/// The first line of a response: `HTTP/1.1 <status> <reason>` and CRLF.
pub open spec fn status_line(status: u16) -> Seq<u8> {
    version_token() + seq![32u8] + dec_digits(status as nat) + seq![32u8] + reason_phrase(status)
        + seq![CR, LF]
}

/// One header line on the wire: `name: value` and CRLF.
pub open spec fn header_line(h: HeaderView) -> Seq<u8> {
    h.name + seq![58u8, 32] + h.value + seq![CR, LF]
}

/// The header section: every header in order, each on its own line.
pub open spec fn headers_wire(hs: Seq<HeaderView>) -> Seq<u8>
    decreases hs.len(),
{
    if hs.len() == 0 {
        Seq::empty()
    } else {
        header_line(hs[0]) + headers_wire(hs.drop_first())
    }
}

/// The framing header the body calls for: its exact `Content-Length` when
/// the length counts as known, else `Transfer-Encoding: chunked`.
pub open spec fn framing_header(b: BodyView) -> Seq<u8> {
    if b.length_known {
        name_content_length() + seq![58u8, 32] + dec_digits(b.bytes.len()) + seq![CR, LF]
    } else {
        name_transfer_encoding() + seq![58u8, 32] + token_chunked() + seq![CR, LF]
    }
}

/// Everything before the body: status line, headers, framing header, and
/// the blank line.
pub open spec fn response_head(r: crate::response::ResponseView, method: Method) -> Seq<u8> {
    status_line(r.status) + headers_wire(r.headers) + framing_header(r.body) + seq![CR, LF]
}

/// The body as it goes on the wire: nothing for a `HEAD` request, the
/// bytes verbatim for a known length, chunked framing otherwise.
pub open spec fn body_wire(b: BodyView, method: Method) -> Seq<u8> {
    if method == Method::Head {
        Seq::empty()
    } else if b.length_known {
        b.bytes
    } else {
        chunked_encoding(chunks_of(b.bytes, CHUNK_SIZE as int))
    }
}

/// The whole response on the wire.
pub open spec fn response_wire(r: crate::response::ResponseView, method: Method) -> Seq<u8> {
    response_head(r, method) + body_wire(r.body, method)
}

/// Appends `HTTP/1.1` to `out`.
fn write_version(out: &mut Vec<u8>)
    ensures
        final(out)@ == old(out)@ + version_token(),
{
    let v = [72u8, 84, 84, 80, 47, 49, 46, 49];
    proof {
        assert(v@ =~= version_token());
    }
    push_bytes(out, v.as_slice());
}

/// Appends the status line of `status` to `out`.
fn write_status_line(status: u16, out: &mut Vec<u8>)
    ensures
        final(out)@ == old(out)@ + status_line(status),
{
    write_version(out);
    out.push(32);
    write_dec(status as u64, out);
    out.push(32);
    write_reason(status, out);
    out.push(CR);
    out.push(LF);
    proof {
        assert(out@ =~= old(out)@ + status_line(status));
    }
}

/// Appends every header of `headers`, each as its own line, to `out`.
fn write_headers(headers: &crate::headers::Headers, out: &mut Vec<u8>)
    ensures
        final(out)@ == old(out)@ + headers_wire(headers@),
{
    let mut i: usize = 0;
    proof {
        assert(headers@.skip(0) =~= headers@);
    }
    while i < headers.entries.len()
        invariant
            0 <= i <= headers.entries@.len(),
            headers@.len() == headers.entries@.len(),
            out@ + headers_wire(headers@.skip(i as int)) == old(out)@ + headers_wire(headers@),
        decreases headers.entries@.len() - i,
    {
        let ghost out0 = out@;
        let h = &headers.entries[i];
        push_bytes(out, h.name.as_slice());
        out.push(58);
        out.push(32);
        push_bytes(out, h.value.as_slice());
        out.push(CR);
        out.push(LF);
        proof {
            assert(headers@[i as int] == h@);
            assert(out@ =~= out0 + header_line(h@));
            assert(headers@.skip(i as int).drop_first() =~= headers@.skip(i as int + 1));
            assert(headers@.skip(i as int)[0] == headers@[i as int]);
            assert(headers_wire(headers@.skip(i as int)) == header_line(h@) + headers_wire(
                headers@.skip(i as int + 1),
            ));
            assert(out@ + headers_wire(headers@.skip(i as int + 1)) =~= out0 + headers_wire(
                headers@.skip(i as int),
            ));
        }
        i = i + 1;
    }
    proof {
        assert(headers@.skip(headers@.len() as int) =~= Seq::<HeaderView>::empty());
        assert(out@ =~= old(out)@ + headers_wire(headers@));
    }
}

/// Appends the framing header that `body` calls for to `out`.
fn write_framing(body: &crate::response::Body, out: &mut Vec<u8>)
    ensures
        final(out)@ == old(out)@ + framing_header(body@),
{
    if body.length_known {
        let cl = [99u8, 111, 110, 116, 101, 110, 116, 45, 108, 101, 110, 103, 116, 104];
        proof {
            assert(cl@ =~= name_content_length());
        }
        push_bytes(out, cl.as_slice());
        out.push(58);
        out.push(32);
        write_dec(body.bytes.len() as u64, out);
        out.push(CR);
        out.push(LF);
        proof {
            assert(out@ =~= old(out)@ + framing_header(body@));
        }
    } else {
        let te = [116u8, 114, 97, 110, 115, 102, 101, 114, 45, 101, 110, 99, 111, 100, 105, 110,
            103];
        proof {
            assert(te@ =~= name_transfer_encoding());
        }
        push_bytes(out, te.as_slice());
        out.push(58);
        out.push(32);
        let ch = [99u8, 104, 117, 110, 107, 101, 100];
        proof {
            assert(ch@ =~= token_chunked());
        }
        push_bytes(out, ch.as_slice());
        out.push(CR);
        out.push(LF);
        proof {
            assert(out@ =~= old(out)@ + framing_header(body@));
        }
    }
}

/// Serializes `res` onto `out` for a request made with `method`, and
/// returns the number of bytes written.  For a `HEAD` request the body is
/// suppressed while the headers, the framing header included, still go
/// out.  The bytes appended are exactly `response_wire`.
pub fn encode_response(res: &Response, method: Method, out: &mut Vec<u8>) -> (written: usize)
    ensures
        final(out)@ == old(out)@ + response_wire(res@, method),
        written == response_wire(res@, method).len(),
{
    let start = out.len();
    write_status_line(res.status, out);
    write_headers(&res.headers, out);
    write_framing(&res.body, out);
    out.push(CR);
    out.push(LF);
    proof {
        assert(out@ =~= old(out)@ + response_head(res@, method));
    }
    let is_head = match method {
        Method::Head => true,
        _ => false,
    };
    if is_head {
        proof {
            assert(out@ =~= old(out)@ + response_wire(res@, method));
        }
    } else if res.body.length_known {
        push_bytes(out, res.body.bytes.as_slice());
        proof {
            assert(out@ =~= old(out)@ + response_wire(res@, method));
        }
    } else {
        encode_chunked(res.body.bytes.as_slice(), CHUNK_SIZE, out);
        proof {
            assert(out@ =~= old(out)@ + response_wire(res@, method));
        }
    }
    let end = out.len();
    end - start
}

/// A body of known length travels verbatim: the wire holds a
/// `Content-Length` header naming the body's exact length, the framing
/// header is not `Transfer-Encoding`, and reading that many bytes after
/// the head returns the body unchanged.
pub proof fn lemma_fixed_round_trip(r: crate::response::ResponseView, method: Method)
    requires
        r.body.length_known,
        method != Method::Head,
        r.body.bytes.len() <= u64::MAX,
    ensures
        framing_header(r.body) == name_content_length() + seq![58u8, 32] + dec_digits(
            r.body.bytes.len(),
        ) + seq![CR, LF],
        crate::num::dec_value(dec_digits(r.body.bytes.len())) == r.body.bytes.len(),
        crate::num::all_digits(dec_digits(r.body.bytes.len())),
        crate::decode::parse_body(
            response_wire(r, method),
            response_head(r, method).len() as int,
            crate::decode::BodyFraming::Fixed(r.body.bytes.len() as u64),
        ) == (crate::chunked::ChunkParse::Done {
            body: r.body.bytes,
            end: response_wire(r, method).len() as int,
        }),
{
    let wire = response_wire(r, method);
    let head = response_head(r, method);
    let n = r.body.bytes.len() as int;
    crate::num::lemma_dec_digits_value(r.body.bytes.len());
    assert(wire == head + r.body.bytes);
    assert(wire.len() == head.len() + n);
    assert(wire.subrange(head.len() as int, head.len() + n) =~= r.body.bytes);
}

/// A body of unknown length survives the chunked path: decoding the wire
/// after the head returns exactly the original bytes, wherever the
/// encoder placed the chunk boundaries.
pub proof fn lemma_chunked_round_trip_response(r: crate::response::ResponseView, method: Method)
    requires
        !r.body.length_known,
        method != Method::Head,
    ensures
        crate::decode::parse_body(
            response_wire(r, method),
            response_head(r, method).len() as int,
            crate::decode::BodyFraming::Chunked,
        ) == (crate::chunked::ChunkParse::Done {
            body: r.body.bytes,
            end: response_wire(r, method).len() as int,
        }),
{
    let wire = response_wire(r, method);
    let head = response_head(r, method);
    let pieces = chunks_of(r.body.bytes, CHUNK_SIZE as int);
    let enc = chunked_encoding(pieces);
    crate::chunked::lemma_chunks_of(r.body.bytes, CHUNK_SIZE as int);
    assert(wire == head + enc);
    assert(wire.subrange(head.len() as int, head.len() + enc.len() as int) =~= enc);
    crate::chunked::lemma_chunked_round_trip(wire, head.len() as int, pieces);
}

} // verus!
