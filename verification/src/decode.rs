//! The request decoder: reads the request line, the header section, and
//! the body framing from a byte stream, and can then read the body itself.
//!
//! The stream is presented as the bytes received so far plus a flag saying
//! whether the peer has closed its side.  A clean end of stream before any
//! byte of a new request is not an error; a stream that ends in the middle
//! of one is.

use vstd::prelude::*;

use crate::ascii::{eq_bytes, eq_ignore_ascii_case, eq_ignore_case, trim_ows, trim_range};
use crate::chunked::{decode_chunked, parse_chunks, ChunkParse, ChunkedRead};
use crate::headers::{lookup, HeaderView, Headers};
use crate::num::{all_digits, dec_value, parse_dec};
use crate::request::{method_of, parse_method, Method, Version};
use crate::scan::{find_byte, find_crlf, lemma_find_byte, lemma_find_crlf, scan_byte, scan_crlf};
use crate::{push_bytes, HttpError};

verus! {

/// The header name `transfer-encoding`.
pub open spec fn name_transfer_encoding() -> Seq<u8> {
    seq![116u8, 114, 97, 110, 115, 102, 101, 114, 45, 101, 110, 99, 111, 100, 105, 110, 103]
}

/// The header name `content-length`.
pub open spec fn name_content_length() -> Seq<u8> {
    seq![99u8, 111, 110, 116, 101, 110, 116, 45, 108, 101, 110, 103, 116, 104]
}

/// The transfer coding `chunked`.
pub open spec fn token_chunked() -> Seq<u8> {
    seq![99u8, 104, 117, 110, 107, 101, 100]
}

/// The version token `HTTP/1.1`.
pub open spec fn version_token() -> Seq<u8> {
    seq![72u8, 84, 84, 80, 47, 49, 46, 49]
}

/// How the bytes of a request body are framed on the wire: a known number
/// of bytes, or chunked transfer framing.  A request with neither header
/// has a `Fixed(0)` — empty — body.
#[derive(Clone, Copy, Debug, PartialEq, Eq, Structural)]
pub enum BodyFraming {
    Fixed(u64),
    Chunked,
}

/// True of the bytes allowed in a header name: the printable ASCII range.
pub open spec fn valid_header_name(name: Seq<u8>) -> bool {
    forall|i: int| 0 <= i < name.len() ==> 33 <= #[trigger] name[i] <= 126
}

/// Reads one header line (without its CRLF): the name before the first
/// colon, and the value after it trimmed of surrounding whitespace.
pub open spec fn parse_header_line(line: Seq<u8>) -> Option<HeaderView> {
    match find_byte(line, 0, 58) {
        None => None,
        Some(c) => {
            let name = line.subrange(0, c);
            let value = trim_ows(line.subrange(c + 1, line.len() as int));
            if name.len() == 0 || !valid_header_name(name) {
                None
            } else {
                Some(HeaderView { name, value })
            }
        },
    }
}

/// The outcome of reading a header section.
pub enum HeadersParse {
    Done { headers: Seq<HeaderView>, end: int },
    Incomplete,
    Bad,
}

/// Reads header lines from `s` at `pos` up to and including the blank
/// line that ends the section.
pub open spec fn parse_headers(s: Seq<u8>, pos: int) -> HeadersParse
    decreases s.len() - pos,
{
    if pos < 0 {
        HeadersParse::Bad
    } else {
        match find_crlf(s, pos) {
            None => HeadersParse::Incomplete,
            Some(eol) => {
                if eol == pos {
                    HeadersParse::Done { headers: Seq::empty(), end: pos + 2 }
                } else {
                    match parse_header_line(s.subrange(pos, eol)) {
                        None => HeadersParse::Bad,
                        Some(h) => {
                            proof {
                                lemma_find_crlf(s, pos);
                            }
                            match parse_headers(s, eol + 2) {
                                HeadersParse::Done { headers, end } => HeadersParse::Done {
                                    headers: seq![h] + headers,
                                    end,
                                },
                                o => o,
                            }
                        },
                    }
                }
            },
        }
    }
}

/// Reads the request line: `method SP target SP HTTP/1.1`.  The target is
/// any non-empty run of bytes without a space.
pub open spec fn parse_request_line(line: Seq<u8>) -> Result<
    (Method, Seq<u8>, Version),
    HttpError,
> {
    match find_byte(line, 0, 32) {
        None => Err(HttpError::MalformedRequestLine),
        Some(sp1) => match find_byte(line, sp1 + 1, 32) {
            None => Err(HttpError::MalformedRequestLine),
            Some(sp2) => {
                let mtok = line.subrange(0, sp1);
                let target = line.subrange(sp1 + 1, sp2);
                let vtok = line.subrange(sp2 + 1, line.len() as int);
                if target.len() == 0 {
                    Err(HttpError::MalformedRequestLine)
                } else if vtok != version_token() {
                    Err(HttpError::MalformedRequestLine)
                } else {
                    match method_of(mtok) {
                        None => Err(HttpError::UnknownMethod),
                        Some(m) => Ok((m, target, Version::Http11)),
                    }
                }
            },
        },
    }
}

/// The framing the headers of a request or response declare: a
/// `Transfer-Encoding: chunked` selects chunked framing; otherwise a
/// `Content-Length` gives the exact byte count; neither means no body.
pub open spec fn spec_framing(hs: Seq<HeaderView>) -> Result<BodyFraming, HttpError> {
    let chunked = match lookup(hs, name_transfer_encoding()) {
        Some(v) => eq_ignore_case(v, token_chunked()),
        None => false,
    };
    if chunked {
        Ok(BodyFraming::Chunked)
    } else {
        match lookup(hs, name_content_length()) {
            None => Ok(BodyFraming::Fixed(0)),
            Some(v) => {
                if v.len() > 0 && all_digits(v) && dec_value(v) <= u64::MAX {
                    Ok(BodyFraming::Fixed(dec_value(v) as u64))
                } else {
                    Err(HttpError::InvalidContentLength)
                }
            },
        }
    }
}

/// Everything the head of a request says: the request line, the headers,
/// the body framing they declare, and where the body starts.
pub struct HeadView {
    pub method: Method,
    pub target: Seq<u8>,
    pub version: Version,
    pub headers: Seq<HeaderView>,
    pub framing: BodyFraming,
    pub body_start: int,
}

/// The outcome of reading a request head from the stream.
pub enum HeadParse {
    Request(HeadView),
    Clean,
    Incomplete,
    Bad(HttpError),
}

/// Reads a request head from `s` at `pos`.  `closed` says whether the
/// peer has closed the stream, which turns a half-read head into an error
/// and an end-of-stream into a clean close.
pub open spec fn parse_head(s: Seq<u8>, pos: int, closed: bool) -> HeadParse {
    if pos == s.len() {
        if closed {
            HeadParse::Clean
        } else {
            HeadParse::Incomplete
        }
    } else {
        match find_crlf(s, pos) {
            None => if closed {
                HeadParse::Bad(HttpError::UnexpectedEof)
            } else {
                HeadParse::Incomplete
            },
            Some(eol) => match parse_request_line(s.subrange(pos, eol)) {
                Err(e) => HeadParse::Bad(e),
                Ok((m, target, version)) => match parse_headers(s, eol + 2) {
                    HeadersParse::Incomplete => if closed {
                        HeadParse::Bad(HttpError::UnexpectedEof)
                    } else {
                        HeadParse::Incomplete
                    },
                    HeadersParse::Bad => HeadParse::Bad(HttpError::MalformedHeader),
                    HeadersParse::Done { headers, end } => match spec_framing(headers) {
                        Err(e) => HeadParse::Bad(e),
                        Ok(framing) => HeadParse::Request(
                            HeadView { method: m, target, version, headers, framing, body_start: end },
                        ),
                    },
                },
            },
        }
    }
}

/// The head of a request as decoded from the wire, with the framing of
/// the body that follows it and the position where that body starts.
pub struct RequestHead {
    pub method: Method,
    pub target: Vec<u8>,
    pub version: Version,
    pub headers: Headers,
    pub framing: BodyFraming,
    pub body_start: usize,
}

impl View for RequestHead {
    type V = HeadView;

    open spec fn view(&self) -> HeadView {
        HeadView {
            method: self.method,
            target: self.target@,
            version: self.version,
            headers: self.headers@,
            framing: self.framing,
            body_start: self.body_start as int,
        }
    }
}

/// The executable outcome of reading a request head.
pub enum HeadOutcome {
    /// A complete head; its body starts at `body_start`.
    Request(RequestHead),
    /// The peer closed the stream before sending anything further.
    Clean,
    /// More input is needed before anything can be decided.
    Incomplete,
}

/// `r` with `pre` prepended to its header list, when it has one.
pub open spec fn headers_with_prefix(r: HeadersParse, pre: Seq<HeaderView>) -> HeadersParse {
    match r {
        HeadersParse::Done { headers, end } => HeadersParse::Done { headers: pre + headers, end },
        o => o,
    }
}

/// Checks that every byte of `name` may stand in a header name.
fn check_header_name(name: &[u8]) -> (r: bool)
    ensures
        r == valid_header_name(name@),
{
    let mut i: usize = 0;
    while i < name.len()
        invariant
            0 <= i <= name@.len(),
            forall|k: int| 0 <= k < i ==> 33 <= #[trigger] name@[k] <= 126,
        decreases name@.len() - i,
    {
        if !(33 <= name[i] && name[i] <= 126) {
            return false;
        }
        i = i + 1;
    }
    true
}

/// Reads the header section of `s` starting at `pos`, returning exactly
/// what `parse_headers` says for this input.
fn decode_headers(s: &[u8], pos: usize) -> (r: Result<Option<(Headers, usize)>, HttpError>)
    requires
        pos <= s@.len(),
    ensures
        match r {
            Ok(Some((hs, end))) => parse_headers(s@, pos as int) == (HeadersParse::Done {
                headers: hs@,
                end: end as int,
            }) && pos < end <= s@.len(),
            Ok(None) => parse_headers(s@, pos as int) == HeadersParse::Incomplete,
            Err(e) => parse_headers(s@, pos as int) == HeadersParse::Bad && e
                == HttpError::MalformedHeader,
        },
{
    let total = s.len();
    let mut hs = Headers::new();
    let mut cur: usize = pos;
    proof {
        match parse_headers(s@, pos as int) {
            HeadersParse::Done { headers, end } => {
                assert(Seq::<HeaderView>::empty() + headers =~= headers);
            },
            _ => {},
        }
    }
    loop
        invariant
            s@.len() <= usize::MAX,
            pos <= cur <= s@.len(),
            headers_with_prefix(parse_headers(s@, cur as int), hs@) == parse_headers(
                s@,
                pos as int,
            ),
        decreases s@.len() - cur,
    {
        let eol = match scan_crlf(s, cur) {
            Some(e) => e,
            None => {
                return Ok(None);
            },
        };
        proof {
            lemma_find_crlf(s@, cur as int);
        }
        if eol == cur {
            proof {
                assert(hs@ + Seq::<HeaderView>::empty() =~= hs@);
            }
            return Ok(Some((hs, eol + 2)));
        }
        let line = &s[cur..eol];
        let colon = match scan_byte(line, 0, 58) {
            Some(c) => c,
            None => {
                return Err(HttpError::MalformedHeader);
            },
        };
        proof {
            lemma_find_byte(line@, 0, 58);
        }
        if colon == 0 {
            return Err(HttpError::MalformedHeader);
        }
        let name_part = &line[0..colon];
        if !check_header_name(name_part) {
            return Err(HttpError::MalformedHeader);
        }
        let rest = &line[colon + 1..line.len()];
        let (lo, hi) = trim_range(rest);
        let mut name: Vec<u8> = Vec::new();
        push_bytes(&mut name, name_part);
        let mut value: Vec<u8> = Vec::new();
        push_bytes(&mut value, &rest[lo..hi]);
        let ghost h = HeaderView { name: name@, value: value@ };
        proof {
            assert(name@ =~= line@.subrange(0, colon as int));
            assert(value@ =~= trim_ows(line@.subrange(colon as int + 1, line@.len() as int)));
            assert(parse_header_line(line@) == Some(h));
        }
        let ghost hs0 = hs@;
        hs.append(name, value);
        proof {
            assert(hs@ =~= hs0 + seq![h]);
            // one parsed line is the head of the remaining header list
            match parse_headers(s@, eol as int + 2) {
                HeadersParse::Done { headers, end } => {
                    assert(parse_headers(s@, cur as int) == (HeadersParse::Done {
                        headers: seq![h] + headers,
                        end,
                    }));
                    assert(hs0 + (seq![h] + headers) =~= (hs0 + seq![h]) + headers);
                },
                _ => {},
            }
        }
        cur = eol + 2;
    }
}

/// Determines the body framing that a header list declares, returning
/// exactly what `spec_framing` says.
pub fn compute_framing(headers: &Headers) -> (r: Result<BodyFraming, HttpError>)
    ensures
        r == spec_framing(headers@),
{
    let te = [116u8, 114, 97, 110, 115, 102, 101, 114, 45, 101, 110, 99, 111, 100, 105, 110, 103];
    proof {
        assert(te@ =~= name_transfer_encoding());
    }
    let chunked_tok = [99u8, 104, 117, 110, 107, 101, 100];
    proof {
        assert(chunked_tok@ =~= token_chunked());
    }
    let is_chunked = match headers.get(te.as_slice()) {
        Some(v) => eq_ignore_ascii_case(v.as_slice(), chunked_tok.as_slice()),
        None => false,
    };
    if is_chunked {
        return Ok(BodyFraming::Chunked);
    }
    let cl = [99u8, 111, 110, 116, 101, 110, 116, 45, 108, 101, 110, 103, 116, 104];
    proof {
        assert(cl@ =~= name_content_length());
    }
    match headers.get(cl.as_slice()) {
        None => Ok(BodyFraming::Fixed(0)),
        Some(v) => match parse_dec(v.as_slice()) {
            Some(n) => Ok(BodyFraming::Fixed(n)),
            None => Err(HttpError::InvalidContentLength),
        },
    }
}

/// Reads a request head from the stream: the request line, the headers,
/// and the framing they declare.  Returns `Clean` on a clean end of
/// stream before any further byte, `Incomplete` when more input is needed
/// and the stream is still open, and an error for a malformed or cut-off
/// head.  The outcome is exactly what `parse_head` says for this input.
pub fn decode(s: &[u8], pos: usize, closed: bool) -> (r: Result<HeadOutcome, HttpError>)
    requires
        pos <= s@.len(),
    ensures
        match r {
            Ok(HeadOutcome::Request(h)) => parse_head(s@, pos as int, closed)
                == HeadParse::Request(h@) && pos < h.body_start <= s@.len(),
            Ok(HeadOutcome::Clean) => parse_head(s@, pos as int, closed) == HeadParse::Clean,
            Ok(HeadOutcome::Incomplete) => parse_head(s@, pos as int, closed)
                == HeadParse::Incomplete,
            Err(e) => parse_head(s@, pos as int, closed) == HeadParse::Bad(e),
        },
{
    if pos == s.len() {
        if closed {
            return Ok(HeadOutcome::Clean);
        } else {
            return Ok(HeadOutcome::Incomplete);
        }
    }
    let eol = match scan_crlf(s, pos) {
        Some(e) => e,
        None => {
            if closed {
                return Err(HttpError::UnexpectedEof);
            } else {
                return Ok(HeadOutcome::Incomplete);
            }
        },
    };
    proof {
        lemma_find_crlf(s@, pos as int);
    }
    let line = &s[pos..eol];
    let sp1 = match scan_byte(line, 0, 32) {
        Some(k) => k,
        None => {
            return Err(HttpError::MalformedRequestLine);
        },
    };
    proof {
        lemma_find_byte(line@, 0, 32);
    }
    let sp2 = match scan_byte(line, sp1 + 1, 32) {
        Some(k) => k,
        None => {
            return Err(HttpError::MalformedRequestLine);
        },
    };
    proof {
        lemma_find_byte(line@, sp1 as int + 1, 32);
    }
    if sp2 == sp1 + 1 {
        // empty target
        return Err(HttpError::MalformedRequestLine);
    }
    let vtok = &line[sp2 + 1..line.len()];
    let version_lit = [72u8, 84, 84, 80, 47, 49, 46, 49];
    proof {
        assert(version_lit@ =~= version_token());
    }
    if !eq_bytes(vtok, version_lit.as_slice()) {
        return Err(HttpError::MalformedRequestLine);
    }
    let method = match parse_method(&line[0..sp1]) {
        Some(m) => m,
        None => {
            return Err(HttpError::UnknownMethod);
        },
    };
    let mut target: Vec<u8> = Vec::new();
    push_bytes(&mut target, &line[sp1 + 1..sp2]);
    let (headers, body_start) = match decode_headers(s, eol + 2)? {
        Some(pair) => pair,
        None => {
            if closed {
                return Err(HttpError::UnexpectedEof);
            } else {
                return Ok(HeadOutcome::Incomplete);
            }
        },
    };
    let framing = compute_framing(&headers)?;
    let head = RequestHead {
        method,
        target,
        version: Version::Http11,
        headers,
        framing,
        body_start,
    };
    proof {
        assert(parse_request_line(line@) == Ok::<_, HttpError>(
            (method, head.target@, Version::Http11),
        ));
    }
    Ok(HeadOutcome::Request(head))
}

/// Reads the body that `framing` declares from `s` at `pos`, returning
/// the unframed payload and the position just past the body.
pub open spec fn parse_body(s: Seq<u8>, pos: int, framing: BodyFraming) -> ChunkParse {
    match framing {
        BodyFraming::Fixed(n) => if pos + n <= s.len() {
            ChunkParse::Done { body: s.subrange(pos, pos + n), end: pos + n }
        } else {
            ChunkParse::Incomplete
        },
        BodyFraming::Chunked => parse_chunks(s, pos),
    }
}

/// Reads the request body from `s` at `pos`, returning exactly what
/// `parse_body` says for this input.
pub fn read_body(s: &[u8], pos: usize, framing: BodyFraming) -> (r: ChunkedRead)
    requires
        pos <= s@.len(),
    ensures
        match r {
            ChunkedRead::Done(body, end) => parse_body(s@, pos as int, framing)
                == (ChunkParse::Done { body: body@, end: end as int }) && pos <= end <= s@.len(),
            ChunkedRead::Incomplete => parse_body(s@, pos as int, framing)
                == ChunkParse::Incomplete,
            ChunkedRead::Malformed => parse_body(s@, pos as int, framing) == ChunkParse::Malformed,
        },
{
    match framing {
        BodyFraming::Fixed(n) => {
            let remaining = s.len() - pos;
            if n > remaining as u64 {
                return ChunkedRead::Incomplete;
            }
            let n_us = n as usize;
            let mut body: Vec<u8> = Vec::new();
            push_bytes(&mut body, &s[pos..pos + n_us]);
            ChunkedRead::Done(body, pos + n_us)
        },
        BodyFraming::Chunked => decode_chunked(s, pos),
    }
}

/// A parsed header section always ends strictly past where it began and
/// within the input.
pub proof fn lemma_parse_headers_bounds(s: Seq<u8>, pos: int)
    requires
        0 <= pos,
    ensures
        parse_headers(s, pos) matches HeadersParse::Done { headers: _, end } ==> pos < end
            <= s.len(),
    decreases s.len() - pos,
{
    lemma_find_crlf(s, pos);
    match find_crlf(s, pos) {
        None => {},
        Some(eol) => {
            if eol != pos {
                lemma_parse_headers_bounds(s, eol + 2);
            }
        },
    }
}

/// A parsed request head always puts the body strictly past where the
/// head began and within the input.
pub proof fn lemma_parse_head_bounds(s: Seq<u8>, pos: int, closed: bool)
    requires
        0 <= pos <= s.len(),
    ensures
        parse_head(s, pos, closed) matches HeadParse::Request(h) ==> pos < h.body_start <= s.len(),
{
    lemma_find_crlf(s, pos);
    match find_crlf(s, pos) {
        None => {},
        Some(eol) => {
            lemma_parse_headers_bounds(s, eol + 2);
        },
    }
}

} // verus!
